use redshift_minimal::colorramp::{channel_weights, fill, ColorSetting};

fn ramps(temp: i32, brightness: u32, n: usize) -> (Vec<u16>, Vec<u16>, Vec<u16>) {
    let mut r = vec![0u16; n];
    let mut g = vec![0u16; n];
    let mut b = vec![0u16; n];
    fill(&mut r, &mut g, &mut b, &ColorSetting { temp, brightness }, n);
    (r, g, b)
}

#[test]
fn neutral_setting_gives_identity_ramp() {
    let (r, g, b) = ramps(6500, 1000, 256);
    for i in 0..256 {
        assert_eq!(r[i] as usize, i * 256);
        assert_eq!(g[i] as usize, i * 256);
        assert_eq!(b[i] as usize, i * 256);
    }
}

#[test]
fn lowest_temperature_is_red() {
    let (r, g, b) = ramps(1000, 1000, 256);
    assert_eq!((r[0], g[0], b[0]), (0, 0, 0));
    assert_eq!(r[255], 65280);
    assert_eq!(g[255], 17449);
    assert_eq!(b[255], 0);
}

#[test]
fn highest_temperature_is_blue() {
    let (r, g, b) = ramps(25000, 1000, 256);
    assert_eq!((r[0], g[0], b[0]), (0, 0, 0));
    assert_eq!(r[255], 41139);
    assert_eq!(g[255], 48836);
    assert_eq!(b[255], 65280);
    assert!(b[255] > g[255] && g[255] > r[255]);
}

#[test]
fn weights_interpolate_between_entries() {
    assert_eq!(channel_weights(1250), (5000000, 1733250, 0));
    assert_eq!(channel_weights(6500), (5000000, 5000000, 5000000));
    assert_eq!(channel_weights(25000), (3151000, 3740500, 5000000));
    let (_, g, _) = ramps(1250, 1000, 256);
    assert_eq!(g[255], 22629);
}

#[test]
fn brightness_scales_output() {
    let (r, _, _) = ramps(6500, 500, 256);
    assert_eq!(r[255], 32640);
    assert_eq!(r[1], 128);
}

#[test]
fn brightness_is_monotonic() {
    for temp in [1000, 3456, 6500, 12345, 25000] {
        let (r1, g1, b1) = ramps(temp, 300, 1024);
        let (r2, g2, b2) = ramps(temp, 700, 1024);
        for i in 0..1024 {
            assert!(r1[i] <= r2[i] && g1[i] <= g2[i] && b1[i] <= b2[i]);
        }
    }
}

#[test]
fn fill_is_deterministic() {
    let first = ramps(4321, 800, 1024);
    let mut r = vec![7u16; 1024];
    let mut g = vec![9u16; 1024];
    let mut b = vec![11u16; 1024];
    fill(&mut r, &mut g, &mut b, &ColorSetting { temp: 4321, brightness: 800 }, 1024);
    assert_eq!(first, (r, g, b));
}

#[test]
fn empty_ramp_is_left_empty() {
    let (r, g, b) = ramps(3000, 1000, 0);
    assert!(r.is_empty() && g.is_empty() && b.is_empty());
}

#[test]
fn first_entry_is_zero_for_every_temperature() {
    for temp in (1000..=25000).step_by(250) {
        let (r, g, b) = ramps(temp, 1000, 256);
        assert_eq!((r[0], g[0], b[0]), (0, 0, 0));
        assert!(r[255] <= 65535 && g[255] <= 65535 && b[255] <= 65535);
    }
}
