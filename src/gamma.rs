//! Gamma adjustment methods: what each offers, the registry that selects
//! one, and the version check of the RandR method.
use vstd::prelude::*;
use crate::colorramp::ColorSetting;

verus! {

/// Oldest RandR version that the RandR method works with: major part.
pub const RANDR_MAJOR_VERSION: u32 = 1;

/// Oldest RandR version that the RandR method works with: minor part.
pub const RANDR_MINOR_VERSION: u32 = 3;

/// The registered gamma adjustment methods.
#[derive(Clone, Copy, Debug, PartialEq, Eq, Structural)]
pub enum MethodKind {
    Randr,
    Dummy,
}

/// What can go wrong in selecting or running a gamma adjustment method.
#[derive(Clone, Copy, Debug, PartialEq, Eq, Structural)]
pub enum GammaError {
    /// A method was asked for by a name that is not registered.
    UnknownMethod,
    /// No method other than the dummy could be started.
    NoMethodAvailable,
    /// The display server's RandR version (major, minor) is too old.
    UnsupportedVersion(u32, u32),
    /// A controller's ramps do not have the length of its ramp size.
    RampSizeMismatch,
    /// The session with the display server could not be established.
    Connection,
    /// A request to the display server failed or was answered with an error.
    Request,
    /// A color setting outside the supported temperatures or brightness.
    InvalidSetting,
}

/// What every gamma adjustment method offers.
pub trait GammaMethod {
    /// Captures the state that restoring returns to; called before any other
    /// method.
    fn start(&mut self) -> Result<(), GammaError>;

    /// Adjusts all managed displays to a setting, superseding earlier calls.
    fn set_temperature(&mut self, setting: &ColorSetting) -> Result<(), GammaError>;

    /// Applies again the state captured by `start`.
    fn restore(&self) -> Result<(), GammaError>;
}

/// A method that touches no hardware.
pub struct DummyMethod;

impl GammaMethod for DummyMethod {
    fn start(&mut self) -> (r: Result<(), GammaError>)
        ensures
            r == Ok::<(), GammaError>(()),
    {
        Ok(())
    }

    fn set_temperature(&mut self, _setting: &ColorSetting) -> (r: Result<(), GammaError>)
        ensures
            r == Ok::<(), GammaError>(()),
    {
        Ok(())
    }

    fn restore(&self) -> (r: Result<(), GammaError>)
        ensures
            r == Ok::<(), GammaError>(()),
    {
        Ok(())
    }
}

/// The dummy method, which always starts.
pub fn init_dummy() -> (r: Result<DummyMethod, GammaError>)
    ensures
        r.is_ok(),
{
    Ok(DummyMethod)
}

/// The method registered under a name.
pub open spec fn method_named(name: Seq<char>) -> Option<MethodKind> {
    if name == "randr"@ {
        Some(MethodKind::Randr)
    } else if name == "dummy"@ {
        Some(MethodKind::Dummy)
    } else {
        None
    }
}

fn same_text(a: &str, b: &str) -> (r: bool)
    ensures
        r == (a@ == b@),
{
    let x: String = a.to_owned();
    let y: String = b.to_owned();
    x == y
}

/// Looks a method up by its registered name.
pub fn method_by_name(name: &str) -> (r: Result<MethodKind, GammaError>)
    ensures
        match method_named(name@) {
            Some(k) => r == Ok::<MethodKind, GammaError>(k),
            None => r == Err::<MethodKind, GammaError>(GammaError::UnknownMethod),
        },
{
    if same_text(name, "randr") {
        Ok(MethodKind::Randr)
    } else if same_text(name, "dummy") {
        Ok(MethodKind::Dummy)
    } else {
        Err(GammaError::UnknownMethod)
    }
}

/// The methods that are tried, in order, when none is named: all but the
/// dummy.
pub fn probe_order() -> (r: Vec<MethodKind>)
    ensures
        r@ == seq![MethodKind::Randr],
        forall|i: int| 0 <= i < r@.len() ==> r@[i] != MethodKind::Dummy,
{
    let mut v: Vec<MethodKind> = Vec::new();
    v.push(MethodKind::Randr);
    v
}

/// The first method of a probe that is not the dummy and that started.
pub open spec fn first_started(probed: Seq<(MethodKind, bool)>) -> Option<MethodKind>
    decreases probed.len(),
{
    if probed.len() == 0 {
        None
    } else if probed[0].0 != MethodKind::Dummy && probed[0].1 {
        Some(probed[0].0)
    } else {
        first_started(probed.drop_first())
    }
}

/// Selects the gamma adjustment method. A named method is looked up, and an
/// unregistered name is an error. Without a name the result is the first
/// method of `probed` (each method with whether it started) that is not the
/// dummy and started, or `NoMethodAvailable` if there is none.
pub fn init_gamma_method(method_name: Option<&str>, probed: &Vec<(MethodKind, bool)>) -> (r: Result<
    MethodKind,
    GammaError,
>)
    ensures
        match method_name {
            Some(m) => match method_named(m@) {
                Some(k) => r == Ok::<MethodKind, GammaError>(k),
                None => r == Err::<MethodKind, GammaError>(GammaError::UnknownMethod),
            },
            None => match first_started(probed@) {
                Some(k) => r == Ok::<MethodKind, GammaError>(k),
                None => r == Err::<MethodKind, GammaError>(GammaError::NoMethodAvailable),
            },
        },
{
    match method_name {
        Some(m) => method_by_name(m),
        None => {
            let mut i: usize = 0;
            assert(probed@.subrange(0, probed@.len() as int) =~= probed@);
            while i < probed.len()
                invariant
                    method_name.is_none(),
                    i <= probed@.len(),
                    first_started(probed@) == first_started(probed@.subrange(i as int, probed@.len() as int)),
                decreases probed@.len() - i,
            {
                let entry = probed[i];
                let ghost rest = probed@.subrange(i as int, probed@.len() as int);
                assert(rest[0] == entry);
                if entry.0 != MethodKind::Dummy && entry.1 {
                    assert(first_started(rest) == Some(entry.0));
                    return Ok(entry.0);
                }
                assert(rest.drop_first() =~= probed@.subrange(i + 1, probed@.len() as int));
                i = i + 1;
            }
            Err(GammaError::NoMethodAvailable)
        },
    }
}

/// Without a name the dummy is never selected, and a method is selected as
/// soon as one that is not the dummy started.
pub proof fn lemma_probe_skips_dummy(probed: Seq<(MethodKind, bool)>)
    ensures
        first_started(probed) != Some(MethodKind::Dummy),
        (exists|j: int| 0 <= j < probed.len() && probed[j].0 != MethodKind::Dummy && probed[j].1)
            ==> first_started(probed).is_some(),
    decreases probed.len(),
{
    if probed.len() > 0 {
        lemma_probe_skips_dummy(probed.drop_first());
        if exists|j: int| 0 <= j < probed.len() && probed[j].0 != MethodKind::Dummy && probed[j].1 {
            let j = choose|j: int| 0 <= j < probed.len() && probed[j].0 != MethodKind::Dummy && probed[j].1;
            if j > 0 {
                assert(probed.drop_first()[j - 1] == probed[j]);
            }
        }
    }
}

/// Checks a RandR version that the display server reported against the
/// oldest one supported.
pub fn check_randr_version(major: u32, minor: u32) -> (r: Result<(), GammaError>)
    ensures
        r.is_ok() <==> (major > RANDR_MAJOR_VERSION || (major == RANDR_MAJOR_VERSION && minor
            >= RANDR_MINOR_VERSION)),
        r.is_err() ==> r == Err::<(), GammaError>(GammaError::UnsupportedVersion(major, minor)),
{
    if major < RANDR_MAJOR_VERSION || (major == RANDR_MAJOR_VERSION && minor < RANDR_MINOR_VERSION) {
        Err(GammaError::UnsupportedVersion(major, minor))
    } else {
        Ok(())
    }
}

} // verus!
