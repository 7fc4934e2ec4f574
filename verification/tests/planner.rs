use rget::segment::{plan_segments, Segment};

fn seg(start: u64, end: u64) -> Segment {
    Segment { start, end }
}

#[test]
fn four_even_segments() {
    let segs = plan_segments(0, 1000, 4);
    assert_eq!(segs, vec![seg(0, 249), seg(250, 499), seg(500, 749), seg(750, 999)]);
}

#[test]
fn last_segment_absorbs_remainder() {
    let segs = plan_segments(0, 1000, 3);
    assert_eq!(segs, vec![seg(0, 332), seg(333, 665), seg(666, 999)]);
}

#[test]
fn tiny_file_collapses_to_one_byte_segments() {
    let segs = plan_segments(0, 5, 8);
    assert_eq!(segs, vec![seg(0, 0), seg(1, 1), seg(2, 2), seg(3, 3), seg(4, 4)]);
}

#[test]
fn complete_file_plans_nothing() {
    assert_eq!(plan_segments(1000, 1000, 4), vec![]);
    assert_eq!(plan_segments(1500, 1000, 4), vec![]);
    assert_eq!(plan_segments(0, 0, 8), vec![]);
}

#[test]
fn resume_plan_starts_at_existing_size() {
    let segs = plan_segments(400, 1000, 4);
    assert_eq!(segs, vec![seg(400, 549), seg(550, 699), seg(700, 849), seg(850, 999)]);
}

#[test]
fn single_segment_covers_everything() {
    assert_eq!(plan_segments(0, 1000, 1), vec![seg(0, 999)]);
}

#[test]
fn one_byte_remaining() {
    assert_eq!(plan_segments(999, 1000, 8), vec![seg(999, 999)]);
}

#[test]
fn plans_partition_exactly() {
    let cases: &[(u64, u64, u64)] = &[
        (0, 1000, 4),
        (0, 1000, 3),
        (0, 5, 8),
        (400, 1000, 4),
        (123, 456789, 7),
        (0, 1, 1),
        (999, 1000, 8),
        (0, u64::MAX, 16),
    ];
    for &(existing, total, count) in cases {
        let segs = plan_segments(existing, total, count);
        assert!(segs.len() as u64 <= count);
        assert!(!segs.is_empty());
        assert_eq!(segs[0].start, existing);
        assert_eq!(segs[segs.len() - 1].end, total - 1);
        let mut sum: u64 = 0;
        for (i, s) in segs.iter().enumerate() {
            assert!(s.start <= s.end);
            if i > 0 {
                assert_eq!(s.start, segs[i - 1].end + 1);
                assert!(segs[i - 1].end < s.start);
            }
            sum += s.end - s.start + 1;
        }
        assert_eq!(sum, total - existing);
    }
}
