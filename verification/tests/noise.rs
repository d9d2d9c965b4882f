use raytracing::noise::{randx, randy, set_noise};
use raytracing::settings::SAMPLE_PER_PIXEL;

#[test]
fn table_keeps_the_offsets_in_order() {
    let samples: Vec<(f32, f32)> = (0..SAMPLE_PER_PIXEL)
        .map(|i| (i as f32 / 500.0, 1.0 - i as f32 / 500.0))
        .collect();
    let table = set_noise(samples.clone());
    for i in 0..SAMPLE_PER_PIXEL {
        assert_eq!(randx(&table, i), samples[i].0);
        assert_eq!(randy(&table, i), samples[i].1);
    }
    assert_eq!(randx(&table, 250), 0.5);
    assert_eq!(randy(&table, 0), 1.0);
}

#[test]
fn table_is_shared_by_value() {
    let samples: Vec<(u32, u32)> = (0..SAMPLE_PER_PIXEL as u32).map(|i| (i, 2 * i)).collect();
    let table = set_noise(samples);
    assert_eq!(randx(&table, 0), 0);
    assert_eq!(randx(&table, 499), 499);
    assert_eq!(randy(&table, 499), 998);
}
