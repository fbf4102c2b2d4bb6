use qlipq::frames::{plan_upload, FrameSlot, UploadPlan};

#[test]
fn frame_slot_stores_and_bumps_generation() {
    let mut slot = FrameSlot::new();
    assert_eq!(slot.generation(), 0);
    assert_eq!(slot.frame_bytes(), None);
    slot.store(2, 1, vec![1, 2, 3, 4, 5, 6, 7, 8, 9]);
    assert_eq!(slot.generation(), 1);
    assert_eq!((slot.width(), slot.height()), (2, 1));
    assert_eq!(slot.frame_bytes(), Some(&[1u8, 2, 3, 4, 5, 6, 7, 8][..]));
    slot.store(2, 2, vec![0; 15]);
    assert_eq!(slot.generation(), 2);
    assert_eq!(slot.frame_bytes(), None);
}

#[test]
fn upload_plans() {
    assert_eq!(plan_upload(false, (0, 0), None, 1, 10, 10), UploadPlan { reallocate: true, write: true });
    assert_eq!(plan_upload(true, (10, 10), Some(1), 1, 10, 10), UploadPlan { reallocate: false, write: false });
    assert_eq!(plan_upload(true, (10, 10), Some(1), 2, 10, 10), UploadPlan { reallocate: false, write: true });
    assert_eq!(plan_upload(true, (10, 10), Some(2), 2, 20, 10), UploadPlan { reallocate: true, write: true });
}
