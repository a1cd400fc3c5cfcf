use coding_pal::classifier::{contains_str, ide_names, matches_any_name, name_matches};
use coding_pal::gesture::keypoint_row;
use coding_pal::monitor::{get_process_stats, has_distinct_pids, ProcessMonitor, ProcessSample};

fn sample(pid: u32, name: &str, cpu: u64, mem: u64) -> ProcessSample {
    ProcessSample {
        pid,
        name: name.to_string(),
        path: format!("/usr/bin/{}", name),
        cpu_usage: cpu,
        memory_usage: mem,
    }
}

#[test]
fn classifier_matches_case_insensitive_substrings() {
    let m = ProcessMonitor::new();
    assert!(m.is_tracked("Code.exe"));
    assert!(m.is_tracked("CURSOR"));
    assert!(m.is_tracked("my-idea-notes.txt"));
}

#[test]
fn classifier_rejects_notepad() {
    let m = ProcessMonitor::new();
    assert!(!m.is_tracked("notepad"));
    assert!(!m.is_tracked(""));
}

#[test]
fn name_matches_lowercases_before_matching() {
    let names = ide_names();
    assert!(name_matches("PyCharm64.exe", &names));
    assert!(name_matches("WEBSTORM", &names));
    assert!(!name_matches("bash", &names));
}

#[test]
fn matches_any_name_on_lowered_names() {
    let names = ide_names();
    assert!(matches_any_name("clion", &names));
    assert!(matches_any_name("devenv.exe", &names));
    assert!(!matches_any_name("CURSOR", &names));
    assert!(!matches_any_name("firefox", &names));
    assert!(!matches_any_name("cod", &names));
}

#[test]
fn contains_str_finds_runs() {
    assert!(contains_str("my-idea-notes.txt", "idea"));
    assert!(contains_str("abc", ""));
    assert!(contains_str("abc", "abc"));
    assert!(!contains_str("ab", "abc"));
    assert!(!contains_str("axbxc", "abc"));
    assert!(contains_str("ääcode", "code"));
}

#[test]
fn ide_name_list_is_fixed() {
    let names = ide_names();
    assert_eq!(
        names,
        vec!["cursor", "trae", "qoder", "kiro", "code", "devenv", "idea", "pycharm", "webstorm", "clion"]
    );
}

#[test]
fn cursor_scenario_three_polls() {
    let mut m = ProcessMonitor::new();
    let first = m.get_ide_processes(&vec![sample(100, "Cursor", 500, 200000000)], 1000);
    assert_eq!(first.len(), 1);
    assert_eq!(first[0].pid, 100);
    assert_eq!(first[0].name, "Cursor");
    assert_eq!(first[0].status, "running");
    assert_eq!(first[0].cpu_usage, 500);
    assert_eq!(first[0].start_time, 1000);
    assert_eq!(m.get_process_count(), 1);
    assert_eq!(m.get_tracked_processes()[&100].max_cpu_usage, 500);

    let second = m.get_ide_processes(&vec![sample(100, "Cursor", 1200, 180000000)], 1005);
    assert_eq!(second.len(), 1);
    let info = &m.get_tracked_processes()[&100];
    assert_eq!(info.max_cpu_usage, 1200);
    assert_eq!(info.max_memory_usage, 200000000);
    assert_eq!(info.start_time, 1000);

    let third = m.get_ide_processes(&vec![sample(7, "bash", 10, 10)], 1010);
    assert!(third.is_empty());
    assert!(m.get_tracked_processes().is_empty());
    assert_eq!(m.get_process_count(), 0);
    assert!(!m.is_any_ide_running());
}

#[test]
fn absent_identifier_is_dropped() {
    let mut m = ProcessMonitor::new();
    m.get_ide_processes(&vec![sample(1, "code", 1, 1), sample(2, "clion", 2, 2)], 10);
    assert_eq!(m.get_process_count(), 2);
    m.get_ide_processes(&vec![sample(2, "clion", 3, 3)], 11);
    assert_eq!(m.get_process_count(), 1);
    assert!(!m.get_tracked_processes().contains_key(&1));
    assert!(m.get_tracked_processes().contains_key(&2));
}

#[test]
fn repeated_identical_poll_is_idempotent() {
    let mut m = ProcessMonitor::new();
    let snap = vec![sample(5, "idea64", 300, 4000), sample(6, "pycharm", 700, 100), sample(9, "zsh", 1, 1)];
    m.get_ide_processes(&snap, 20);
    let before: Vec<(u32, u64, u64, i64)> = {
        let mut v: Vec<_> = m
            .get_tracked_processes()
            .iter()
            .map(|(p, i)| (*p, i.max_cpu_usage, i.max_memory_usage, i.start_time))
            .collect();
        v.sort();
        v
    };
    m.get_ide_processes(&snap, 30);
    let mut after: Vec<(u32, u64, u64, i64)> = m
        .get_tracked_processes()
        .iter()
        .map(|(p, i)| (*p, i.max_cpu_usage, i.max_memory_usage, i.start_time))
        .collect();
    after.sort();
    assert_eq!(before, after);
    assert_eq!(after.len(), 2);
}

#[test]
fn reinserted_identifier_starts_fresh() {
    let mut m = ProcessMonitor::new();
    m.get_ide_processes(&vec![sample(42, "Code", 9000, 900)], 1);
    m.get_ide_processes(&vec![], 2);
    assert_eq!(m.get_process_count(), 0);
    m.get_ide_processes(&vec![sample(42, "Code", 100, 50)], 3);
    let info = &m.get_tracked_processes()[&42];
    assert_eq!(info.max_cpu_usage, 100);
    assert_eq!(info.max_memory_usage, 50);
    assert_eq!(info.start_time, 3);
}

#[test]
fn peaks_never_fall_over_polls() {
    let mut m = ProcessMonitor::new();
    let cpus = [400u64, 100, 900, 50, 900, 20];
    let mems = [10u64, 500, 20, 30, 600, 1];
    let mut last = (0u64, 0u64);
    for (k, (c, mm)) in cpus.iter().zip(mems.iter()).enumerate() {
        m.get_ide_processes(&vec![sample(3, "webstorm", *c, *mm)], k as i64);
        let info = &m.get_tracked_processes()[&3];
        assert!(info.max_cpu_usage >= last.0);
        assert!(info.max_memory_usage >= last.1);
        assert!(info.max_cpu_usage >= *c);
        assert!(info.max_memory_usage >= *mm);
        last = (info.max_cpu_usage, info.max_memory_usage);
    }
    assert_eq!(last, (900, 600));
}

#[test]
fn untracked_name_on_known_identifier_keeps_entry() {
    let mut m = ProcessMonitor::new();
    m.get_ide_processes(&vec![sample(8, "trae", 10, 10)], 1);
    let obs = m.get_ide_processes(&vec![sample(8, "sh", 99, 99)], 2);
    assert!(obs.is_empty());
    let info = &m.get_tracked_processes()[&8];
    assert_eq!(info.name, "trae");
    assert_eq!(info.max_cpu_usage, 10);
}

#[test]
fn observations_follow_snapshot_order() {
    let mut m = ProcessMonitor::new();
    let obs = m.get_ide_processes(
        &vec![sample(1, "kiro", 1, 1), sample(2, "vim", 2, 2), sample(3, "qoder", 3, 3)],
        77,
    );
    let pids: Vec<u32> = obs.iter().map(|o| o.pid).collect();
    assert_eq!(pids, vec![1, 3]);
    assert_eq!(obs[1].path, "/usr/bin/qoder");
    assert_eq!(obs[1].memory_usage, 3);
}

#[test]
fn totals_use_live_samples_of_tracked_identifiers() {
    let mut m = ProcessMonitor::new();
    m.get_ide_processes(&vec![sample(1, "code", 100, 1000), sample(2, "clion", 200, 2000), sample(3, "ls", 5, 5)], 1);
    let live = vec![sample(1, "code", 150, 1500), sample(3, "ls", 7, 7), sample(4, "cursor", 9, 9)];
    assert_eq!(m.get_total_cpu_usage(&live), 150);
    assert_eq!(m.get_total_memory_usage(&live), 1500);
    let stats = get_process_stats(&m, &live);
    assert_eq!(stats.total_cpu, 150);
    assert_eq!(stats.total_memory, 1500);
    assert_eq!(stats.process_count, 2);
}

#[test]
fn memory_total_saturates() {
    let mut m = ProcessMonitor::new();
    let snap = vec![sample(1, "code", 1, u64::MAX - 1), sample(2, "code", 1, 5)];
    m.get_ide_processes(&snap, 1);
    assert_eq!(m.get_total_memory_usage(&snap), u64::MAX);
    assert_eq!(m.get_total_cpu_usage(&snap), 2);
}

#[test]
fn empty_monitor_has_no_totals() {
    let m = ProcessMonitor::default();
    assert_eq!(m.get_process_count(), 0);
    assert!(!m.is_any_ide_running());
    assert_eq!(m.get_total_cpu_usage(&vec![sample(1, "code", 1, 1)]), 0);
}

#[test]
fn distinct_identifiers_are_detected() {
    assert!(has_distinct_pids(&vec![]));
    assert!(has_distinct_pids(&vec![sample(1, "a", 0, 0), sample(2, "b", 0, 0)]));
    assert!(!has_distinct_pids(&vec![sample(1, "a", 0, 0), sample(2, "b", 0, 0), sample(1, "c", 0, 0)]));
}

#[test]
fn keypoint_row_needs_all_parts() {
    let row = keypoint_row(4, Some("[]".to_string()), Some(640), Some(480)).unwrap();
    assert_eq!(row.record_id, 4);
    assert_eq!(row.keypoints, "[]");
    assert_eq!((row.frame_width, row.frame_height), (640, 480));
    assert!(row.id.is_none());
    assert!(keypoint_row(4, None, Some(640), Some(480)).is_none());
    assert!(keypoint_row(4, Some("[]".to_string()), None, Some(480)).is_none());
    assert!(keypoint_row(4, Some("[]".to_string()), Some(640), None).is_none());
}

#[test]
fn record_poll_follows_given_marks() {
    let mut m = ProcessMonitor::new();
    let snap = vec![sample(1, "Cursor", 10, 10), sample(2, "notepad", 20, 20)];
    let obs = m.record_poll(&snap, &vec![true, false], 5);
    assert_eq!(obs.len(), 1);
    assert_eq!(obs[0].pid, 1);
    assert_eq!(m.get_process_count(), 1);
    assert!(m.get_tracked_processes().contains_key(&1));
    assert!(!m.get_tracked_processes().contains_key(&2));
}

#[test]
fn record_poll_cursor_scenario() {
    let mut m = ProcessMonitor::new();
    let first = m.record_poll(&vec![sample(100, "Cursor", 500, 200000000)], &vec![true], 1000);
    assert_eq!(first.len(), 1);
    assert_eq!(m.get_tracked_processes()[&100].max_cpu_usage, 500);
    m.record_poll(&vec![sample(100, "Cursor", 1200, 180000000)], &vec![true], 1005);
    assert_eq!(m.get_tracked_processes()[&100].max_cpu_usage, 1200);
    assert_eq!(m.get_tracked_processes()[&100].max_memory_usage, 200000000);
    m.record_poll(&vec![], &vec![], 1010);
    assert_eq!(m.get_process_count(), 0);
}
