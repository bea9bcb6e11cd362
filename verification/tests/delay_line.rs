use crimson::delay_line::{DelayLine, INTERP_MARGIN};
use crimson::layout::delay_buffer_len;

/// One frame as the voice runs it: write, read the taps around `index_a`, move on.
fn frame(line: &mut DelayLine<i32>, x: i32, pos: usize) -> (i32, i32, i32, i32) {
    line.write(x);
    let index_a = line.wrap_index(pos);
    let t = line.taps(index_a);
    line.advance();
    t
}

#[test]
fn new_line_is_filled_and_head_at_zero() {
    let line = DelayLine::new(5, 9i32);
    assert_eq!(line.len(), 5);
    assert_eq!(line.write_pos(), 0);
    for i in 0..5 {
        assert_eq!(line.taps(i), (9, 9, 9, 9));
    }
}

#[test]
fn empty_line_has_no_slots() {
    let mut line = DelayLine::new(0, 1u8);
    assert_eq!(line.len(), 0);
    line.advance();
    assert_eq!(line.write_pos(), 0);
    line.reset(3);
    assert_eq!(line.len(), 0);
}

#[test]
fn write_stores_at_head_without_moving_it() {
    let mut line = DelayLine::new(4, 0i32);
    line.write(7);
    assert_eq!(line.write_pos(), 0);
    assert_eq!(line.taps(0), (0, 7, 0, 0));
    line.write(8);
    assert_eq!(line.taps(1), (8, 0, 0, 0));
}

#[test]
fn advance_wraps_at_the_end() {
    let mut line = DelayLine::new(3, 0i32);
    line.advance();
    assert_eq!(line.write_pos(), 1);
    line.advance();
    assert_eq!(line.write_pos(), 2);
    line.advance();
    assert_eq!(line.write_pos(), 0);
}

#[test]
fn head_moves_one_slot_per_frame() {
    let mut line = DelayLine::new(7, 0i32);
    for n in 1..=20usize {
        line.write(n as i32);
        line.advance();
        assert_eq!(line.write_pos(), n % 7);
    }
}

#[test]
fn taps_wrap_around_both_ends() {
    let mut line = DelayLine::new(4, 0i32);
    for x in [10, 11, 12, 13] {
        line.write(x);
        line.advance();
    }
    assert_eq!(line.taps(0), (13, 10, 11, 12));
    assert_eq!(line.taps(1), (10, 11, 12, 13));
    assert_eq!(line.taps(2), (11, 12, 13, 10));
    assert_eq!(line.taps(3), (12, 13, 10, 11));
}

#[test]
fn taps_on_tiny_rings() {
    let mut one = DelayLine::new(1, 0i32);
    one.write(5);
    assert_eq!(one.taps(0), (5, 5, 5, 5));
    let mut two = DelayLine::new(2, 0i32);
    two.write(1);
    two.advance();
    two.write(2);
    assert_eq!(two.taps(0), (2, 1, 2, 1));
    assert_eq!(two.taps(1), (1, 2, 1, 2));
}

#[test]
fn wrap_index_brings_positions_into_the_ring() {
    let line = DelayLine::new(6, 0u8);
    assert_eq!(line.wrap_index(0), 0);
    assert_eq!(line.wrap_index(5), 5);
    assert_eq!(line.wrap_index(6), 0);
    assert_eq!(line.wrap_index(13), 1);
    assert_eq!(line.wrap_index(usize::MAX), usize::MAX % 6);
}

#[test]
fn written_sample_comes_back_after_its_delay() {
    // 8 slots; the sample written at frame t is found `d` frames later at age d.
    let mut line = DelayLine::new(8, 0i32);
    let mut history: Vec<i32> = Vec::new();
    for t in 0..30i32 {
        let x = 100 + t;
        line.write(x);
        history.push(x);
        for d in 0..8usize {
            let slot = (line.write_pos() + 8 - d) % 8;
            let (_, at, _, _) = line.taps(slot);
            let expected = if d < history.len() { history[history.len() - 1 - d] } else { 0 };
            assert_eq!(at, expected);
        }
        line.advance();
    }
}

#[test]
fn sized_line_taps_read_consecutive_ages() {
    // Longest delay of 5 whole samples: the line gets the interpolation margin on top.
    let len = delay_buffer_len(5);
    assert_eq!(len, 5 + INTERP_MARGIN);
    let mut line = DelayLine::new(len, 0i32);
    for t in 0..40i32 {
        line.write(t);
        if t >= 10 {
            for age in 2..=5usize {
                let index_a = (line.write_pos() + len - age) % len;
                let taps = line.taps(index_a);
                let a = age as i32;
                assert_eq!(taps, (t - a - 1, t - a, t - a + 1, t - a + 2));
            }
        }
        line.advance();
    }
}

#[test]
fn voice_frame_reads_behind_the_head() {
    // A ring of 6 slots, base slot two frames behind the freshly written head.
    let mut line = DelayLine::new(6, 0i32);
    let mut last = (0, 0, 0, 0);
    for t in 1..=9i32 {
        let pos = (line.write_pos() + 6 - 2) % 6;
        last = frame(&mut line, t, pos);
    }
    assert_eq!(last, (6, 7, 8, 9));
}

#[test]
fn reset_clears_slots_and_head() {
    let mut line = DelayLine::new(5, 0i32);
    for x in 1..=7 {
        line.write(x);
        line.advance();
    }
    assert_eq!(line.write_pos(), 2);
    line.reset(0);
    assert_eq!(line.write_pos(), 0);
    assert_eq!(line.len(), 5);
    for i in 0..5 {
        assert_eq!(line.taps(i), (0, 0, 0, 0));
    }
}

#[test]
fn clone_is_an_independent_line() {
    let mut a = DelayLine::new(3, 0i32);
    a.write(4);
    let mut b = a.clone();
    b.write(5);
    assert_eq!(a.taps(0).1, 4);
    assert_eq!(b.taps(0).1, 5);
}
