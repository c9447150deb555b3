use tur::render::{from, WINDOW_OFFSET, WINDOW_SIZE};

#[test]
fn test_from() {
    for n in -2..3 {
        let expected: i64 = -WINDOW_OFFSET + WINDOW_SIZE * n;
        for m in vec![0, -1, 1, -WINDOW_OFFSET, -WINDOW_OFFSET + WINDOW_SIZE - 1] {
            let pos: i64 = m + WINDOW_SIZE * n;
            let actual: i64 = from(pos);
            assert_eq!(actual, expected, "Expected from({}) to be {}, but was {}", pos, expected, actual);
        }
    }
}

#[test]
fn window_starts() {
    assert_eq!(from(0), -32);
    assert_eq!(from(31), -32);
    assert_eq!(from(32), 32);
    assert_eq!(from(-32), -32);
    assert_eq!(from(-33), -96);
    assert_eq!(from(-96), -96);
    assert_eq!(from(-97), -160);
    assert_eq!(from(i64::MAX - 32), i64::MAX - 95);
    assert_eq!(from(i64::MIN + 32), i64::MIN + 32);
}
