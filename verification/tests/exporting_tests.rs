use qlipq::config::{AfterExportAction, AfterExportSettings};
use qlipq::datetimes::LocalDateTime;
use qlipq::exporting::{append_timestamp, build_export_name, finish_export, move_destination, plan_after_export, rename_target, AfterExportPlan};
use qlipq::queue::QueueStatus;

fn now() -> LocalDateTime {
    LocalDateTime { year: 2024, month: 1, day: 31, hour: 18, minute: 9, second: 5 }
}

fn settings(action: AfterExportAction) -> AfterExportSettings {
    AfterExportSettings { action, move_folder: String::new(), rename_prefix: String::new(), rename_suffix: String::new() }
}

#[test]
fn overwrite_alternative_is_time_stamped() {
    assert_eq!(append_timestamp("E:/out/clip.mp4", &now()), "E:/out/clip_2024-01-31_18-09-05.mp4");
    assert_eq!(append_timestamp("clip", &now()), "clip_2024-01-31_18-09-05");
    assert_eq!(append_timestamp("E:\\out\\a.b.mkv", &now()), "E:\\out/a.b_2024-01-31_18-09-05.mkv");
}

#[test]
fn export_name_uses_the_template() {
    assert_eq!(build_export_name("{date}_{source}_{name}", Some(now()), Some("Deadlock"), "raw", "mp4"), "2024-01-31_Deadlock_raw.mp4");
    assert_eq!(build_export_name("{source}", None, None, "raw", "mkv"), "clip.mkv");
}

#[test]
fn after_export_plans() {
    let p = "D:/rec/Replay 2024.mkv";
    assert_eq!(plan_after_export(AfterExportAction::Nothing, &settings(AfterExportAction::Nothing), p, "Replay 2024.mkv"), AfterExportPlan::Nothing);
    assert_eq!(plan_after_export(AfterExportAction::Prompt, &settings(AfterExportAction::Prompt), p, "Replay 2024.mkv"), AfterExportPlan::Nothing);
    assert_eq!(plan_after_export(AfterExportAction::Delete, &settings(AfterExportAction::Delete), p, "Replay 2024.mkv"), AfterExportPlan::Delete(p.to_string()));
    assert_eq!(
        plan_after_export(AfterExportAction::Move, &settings(AfterExportAction::Move), p, "Replay 2024.mkv"),
        AfterExportPlan::PickMoveFolder(p.to_string())
    );
    let mut s = settings(AfterExportAction::Move);
    s.move_folder = "E:/done/".to_string();
    assert_eq!(
        plan_after_export(AfterExportAction::Move, &s, p, "Replay 2024.mkv"),
        AfterExportPlan::Move(p.to_string(), "E:/done/Replay 2024.mkv".to_string())
    );
    let mut r = settings(AfterExportAction::Rename);
    r.rename_prefix = "done_".to_string();
    r.rename_suffix = "_x".to_string();
    assert_eq!(
        plan_after_export(AfterExportAction::Rename, &r, p, "Replay 2024.mkv"),
        AfterExportPlan::Move(p.to_string(), "D:/rec/done_Replay 2024_x.mkv".to_string())
    );
    assert_eq!(move_destination("F:/a", "C:\\x\\y.mp4"), "F:/a/y.mp4");
}

#[test]
fn manual_rename_keeps_extension() {
    assert_eq!(rename_target("D:/rec/a.mkv", "a.mkv", "  best  "), Some("D:/rec/best.mkv".to_string()));
    assert_eq!(rename_target("D:/rec/a", "a", "b"), Some("D:/rec/b".to_string()));
    assert_eq!(rename_target("D:/rec/a.mkv", "a.mkv", "   "), None);
}

#[test]
fn export_outcomes() {
    let c = finish_export(Err("cancelled".to_string()), AfterExportAction::Delete);
    assert_eq!(c.status, QueueStatus::Pending);
    assert_eq!(c.error, None);
    assert!(!c.record_export);
    let f = finish_export(Err("boom".to_string()), AfterExportAction::Delete);
    assert_eq!(f.status, QueueStatus::Error);
    assert_eq!(f.error.as_deref(), Some("boom"));
    let ok = finish_export(Ok(()), AfterExportAction::Delete);
    assert_eq!(ok.status, QueueStatus::Done);
    assert!(ok.record_export);
    assert_eq!(ok.run_action, Some(AfterExportAction::Delete));
    let prompt = finish_export(Ok(()), AfterExportAction::Prompt);
    assert!(prompt.prompt);
    assert_eq!(prompt.run_action, None);
}
