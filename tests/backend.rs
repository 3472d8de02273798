use redshift_minimal::colorramp::ColorSetting;
use redshift_minimal::crtc::CrtcSet;
use redshift_minimal::gamma::{
    check_randr_version, init_dummy, init_gamma_method, method_by_name, probe_order, DummyMethod,
    GammaError, GammaMethod, MethodKind,
};

#[test]
fn unknown_method_name_is_an_error() {
    assert_eq!(method_by_name("wayland"), Err(GammaError::UnknownMethod));
    assert_eq!(init_gamma_method(Some("vidmode"), &vec![]), Err(GammaError::UnknownMethod));
}

#[test]
fn named_methods_are_found() {
    assert_eq!(method_by_name("randr"), Ok(MethodKind::Randr));
    assert_eq!(init_gamma_method(Some("dummy"), &vec![]), Ok(MethodKind::Dummy));
}

#[test]
fn probe_never_picks_dummy() {
    assert_eq!(probe_order(), vec![MethodKind::Randr]);
    let probed = vec![(MethodKind::Dummy, true), (MethodKind::Randr, false)];
    assert_eq!(init_gamma_method(None, &probed), Err(GammaError::NoMethodAvailable));
    let probed = vec![(MethodKind::Dummy, true), (MethodKind::Randr, true)];
    assert_eq!(init_gamma_method(None, &probed), Ok(MethodKind::Randr));
    assert_eq!(init_gamma_method(None, &vec![]), Err(GammaError::NoMethodAvailable));
}

#[test]
fn randr_version_is_checked() {
    assert_eq!(check_randr_version(1, 2), Err(GammaError::UnsupportedVersion(1, 2)));
    assert_eq!(check_randr_version(0, 9), Err(GammaError::UnsupportedVersion(0, 9)));
    assert_eq!(check_randr_version(1, 3), Ok(()));
    assert_eq!(check_randr_version(2, 0), Ok(()));
}

#[test]
fn dummy_method_always_succeeds() {
    let mut d: DummyMethod = init_dummy().unwrap();
    assert_eq!(d.start(), Ok(()));
    assert_eq!(d.set_temperature(&ColorSetting::at_temperature(3000)), Ok(()));
    assert_eq!(d.restore(), Ok(()));
}

#[test]
fn mismatched_ramp_is_refused() {
    let mut set = CrtcSet::new();
    assert_eq!(set.add_crtc(7, 4, vec![1, 2, 3], vec![1, 2, 3, 4], vec![1, 2, 3, 4]), Err(GammaError::RampSizeMismatch));
    assert_eq!(set.len(), 0);
}

#[test]
fn restore_after_adjust_gives_captured_ramps() {
    let mut set = CrtcSet::new();
    let red: Vec<u16> = vec![5, 900, 30000, 65535];
    let green: Vec<u16> = vec![1, 2, 3, 4];
    let blue: Vec<u16> = vec![65535, 40000, 20000, 0];
    assert_eq!(set.add_crtc(42, 4, red.clone(), green.clone(), blue.clone()), Ok(()));
    assert_eq!(set.add_crtc(43, 0, vec![], vec![], vec![]), Ok(()));
    set.set_temperature(&ColorSetting::at_temperature(1000));
    assert_eq!(set.len(), 2);
    let c = &set.crtcs[0];
    assert_eq!(c.id, 42);
    assert_eq!(c.saved.red, red);
    assert_eq!(c.saved.green, green);
    assert_eq!(c.saved.blue, blue);
    assert_eq!(c.scratch.red, vec![0, 16384, 32768, 49152]);
    assert_eq!(c.scratch.blue, vec![0, 0, 0, 0]);
    assert!(set.crtcs[1].scratch.red.is_empty());
    let plan = set.restore();
    assert_eq!(plan.len(), 2);
    assert_eq!(plan[0].crtc, 42);
    assert_eq!(plan[0].ramps.red, red);
    assert_eq!(plan[0].ramps.green, green);
    assert_eq!(plan[0].ramps.blue, blue);
    assert_eq!(plan[1].crtc, 43);
    assert!(plan[1].ramps.red.is_empty());
}
