use halign::alignment::{HAlignment, HAlignmentSummarized};

#[test]
fn halignment_test_new() {
    let axis = HAlignment::new(0.0, 0.0, 100.0);
    assert!(axis.len() == 0);
}

#[test]
fn test_len() {
    let mut axis = HAlignment::new(0.0, 0.0, 100.0);
    assert!(axis.len() == 0);
    axis.add(HAlignmentSummarized { start_radius: 0.0, end_radius: 0.0, length: 100.0 });
    assert!(axis.len() == 1);
}

#[test]
fn test_new_keeps_the_start() {
    let axis = HAlignment::new(433145.265, 4503928.05, 252.9279);
    assert_eq!(axis.start_x, 433145.265);
    assert_eq!(axis.start_y, 4503928.05);
    assert_eq!(axis.start_azimuth, 252.9279);
    assert!(axis.sections.is_empty());
}

#[test]
fn test_add_appends_in_order() {
    let mut axis = HAlignment::new(0.0, 0.0, 90.0);
    axis.add(HAlignmentSummarized { start_radius: 0.0, end_radius: 0.0, length: 100.0 });
    axis.add(HAlignmentSummarized { start_radius: 0.0, end_radius: 450.0, length: 80.222 });
    axis.add(HAlignmentSummarized { start_radius: 450.0, end_radius: 450.0, length: 200.0 });
    assert_eq!(axis.len(), 3);
    assert_eq!(axis.sections[0].length, 100.0);
    assert_eq!(axis.sections[1].end_radius, 450.0);
    assert_eq!(axis.sections[1].start_radius, 0.0);
    assert_eq!(axis.sections[2].start_radius, 450.0);
    assert_eq!(axis.sections[2].length, 200.0);
    assert_eq!(axis.start_x, 0.0);
    assert_eq!(axis.start_y, 0.0);
    assert_eq!(axis.start_azimuth, 90.0);
}
