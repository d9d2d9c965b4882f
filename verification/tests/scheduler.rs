use raytracing::framebuffer::Framebuffer;
use raytracing::scheduler::{refresh_due, Action, Consumer, REFRESH_SLACK};
use raytracing::settings::{MICRO_BETWEEN_FRAME, UPDATE_RATE};

#[test]
fn time_slice_is_a_thirtieth_of_a_second() {
    assert_eq!(UPDATE_RATE, 30);
    assert_eq!(MICRO_BETWEEN_FRAME, 33_333);
    assert_eq!(REFRESH_SLACK, 100);
}

#[test]
fn refresh_is_due_after_slice_and_slack() {
    assert!(!refresh_due(0));
    assert!(!refresh_due(33_333));
    assert!(!refresh_due(33_433));
    assert!(refresh_due(33_434));
    assert!(refresh_due(1_000_000));
}

#[test]
fn refresh_clock_counts_the_low_64_bits() {
    let wrap: u128 = 1 << 64;
    assert!(!refresh_due(wrap));
    assert!(!refresh_due(wrap + 33_433));
    assert!(refresh_due(wrap + 33_434));
    assert!(refresh_due(u64::MAX as u128));
}

#[test]
fn consumer_stores_each_result_at_once() {
    let mut consumer = Consumer::new(Framebuffer::new(2, 2).unwrap());
    assert_eq!(consumer.received(), 0);
    assert!(!consumer.stopped());
    assert_eq!(consumer.update_buffer((2, (10, 20, 30)), 5), Action::Wait);
    assert_eq!(consumer.frame().rgb(2), (10, 20, 30));
    assert_eq!(consumer.received(), 1);
    assert_eq!(consumer.update_buffer((0, (1, 1, 1)), 6), Action::Wait);
    assert_eq!(consumer.frame().pixel(0), 0x0001_0101);
    assert_eq!(consumer.received(), 2);
}

#[test]
fn consumer_asks_for_a_refresh_when_due() {
    let mut consumer = Consumer::new(Framebuffer::new(3, 2).unwrap());
    assert_eq!(consumer.update_buffer((0, (1, 2, 3)), 100), Action::Wait);
    assert_eq!(consumer.update_buffer((1, (4, 5, 6)), 40_000), Action::Refresh { done: 1, total: 6 });
    assert_eq!(consumer.frame().rgb(1), (4, 5, 6));
    assert!(consumer.refreshed(false));
    assert!(!consumer.stopped());
    assert_eq!(consumer.update_buffer((2, (7, 8, 9)), 50), Action::Wait);
    assert_eq!(consumer.received(), 3);
}

#[test]
fn cancelled_consumer_drops_results() {
    let mut consumer = Consumer::new(Framebuffer::new(2, 1).unwrap());
    assert_eq!(consumer.update_buffer((0, (9, 9, 9)), 50_000), Action::Refresh { done: 0, total: 2 });
    assert!(!consumer.refreshed(true));
    assert!(consumer.stopped());
    assert_eq!(consumer.update_buffer((1, (5, 5, 5)), 50_000), Action::Stopped);
    assert_eq!(consumer.received(), 1);
    assert!(!consumer.refreshed(false));
    let frame = consumer.into_frame();
    assert_eq!(frame.rgb(0), (9, 9, 9));
    assert_eq!(frame.rgb(1), (0, 0, 0));
}

fn drained(order: &[usize]) -> Vec<u32> {
    let mut consumer = Consumer::new(Framebuffer::new(4, 2).unwrap());
    for (n, &xy) in order.iter().enumerate() {
        let shade = (xy * 30) as u8;
        let action = consumer.update_buffer((xy, (shade, 0, 255 - shade)), (n as u128) * 20_000);
        if let Action::Refresh { .. } = action {
            assert!(consumer.refreshed(false));
        }
    }
    let frame = consumer.into_frame();
    (0..frame.len()).map(|xy| frame.pixel(xy)).collect()
}

#[test]
fn consumer_image_does_not_depend_on_arrival_order() {
    let in_order = drained(&[0, 1, 2, 3, 4, 5, 6, 7]);
    assert_eq!(drained(&[7, 6, 5, 4, 3, 2, 1, 0]), in_order);
    assert_eq!(drained(&[3, 0, 6, 1, 7, 4, 2, 5]), in_order);
    assert_eq!(in_order[1], 0x001e_00e1);
}
