use hubu_core::telemetry::{
    plan_rotation, rotated_path, rotation_needed, size_after_write, RotationAction, LOG_FILE_MAX_BYTES,
    LOG_FILE_RETAINED_GENERATIONS,
};

/// Log files kept in memory: generation 0 is the active file.
struct Files {
    contents: Vec<Option<String>>,
    size: u64,
    max_bytes: u64,
    retained: usize,
}

impl Files {
    fn new(existing: Option<&str>, max_bytes: u64, retained: usize) -> Self {
        let mut contents = vec![None; retained + 1];
        contents[0] = existing.map(str::to_string);
        let size = existing.map_or(0, |text| text.len() as u64);
        Files { contents, size, max_bytes, retained }
    }

    fn write_line(&mut self, line: &str) {
        if rotation_needed(self.size, line.len(), self.max_bytes) {
            let sizes: Vec<Option<u64>> =
                self.contents.iter().map(|file| file.as_ref().map(|text| text.len() as u64)).collect();
            for action in plan_rotation(&sizes, self.retained, self.max_bytes) {
                match action {
                    RotationAction::Remove { generation } => self.contents[generation] = None,
                    RotationAction::Rename { from, to } => {
                        self.contents[to] = self.contents[from].take();
                    }
                }
            }
            self.size = 0;
        }
        let active = self.contents[0].get_or_insert_with(String::new);
        active.push_str(line);
        active.push('\n');
        self.size = size_after_write(self.size, line.len());
    }
}

#[test]
fn rotation_plan_rotates_before_crossing_limit_and_bounds_retention() {
    let mut log = Files::new(None, 11, 2);
    for value in ["one", "two", "three", "four", "five"] {
        log.write_line(value);
    }
    assert_eq!(log.contents[0].as_deref(), Some("five\n"));
    assert_eq!(log.contents[1].as_deref(), Some("three\nfour\n"));
    assert_eq!(log.contents[2].as_deref(), Some("one\ntwo\n"));
    assert_eq!(log.contents.len(), 3);
}

#[test]
fn rotation_plan_rotates_an_existing_full_log_on_the_next_write() {
    let mut log = Files::new(Some("12345678"), 8, 1);
    log.write_line("new");
    assert_eq!(log.contents[0].as_deref(), Some("new\n"));
    assert_eq!(log.contents[1].as_deref(), Some("12345678"));
}

#[test]
fn rotation_plan_discards_an_existing_oversized_log_to_enforce_the_total_bound() {
    let mut log = Files::new(Some("123456789"), 8, 1);
    log.write_line("new");
    assert_eq!(log.contents[0].as_deref(), Some("new\n"));
    assert_eq!(log.contents[1], None);
}

#[test]
fn rotation_plan_moves_generations_up_and_drops_oversized_ones() {
    let actions = plan_rotation(&vec![Some(5), Some(3), Some(20), Some(7)], 3, 10);
    assert_eq!(
        actions,
        vec![
            RotationAction::Remove { generation: 2 },
            RotationAction::Rename { from: 1, to: 2 },
            RotationAction::Rename { from: 0, to: 1 },
        ]
    );
    assert_eq!(plan_rotation(&vec![Some(1)], 0, 10), vec![RotationAction::Remove { generation: 0 }]);
    assert_eq!(plan_rotation(&vec![None], 0, 10), vec![]);
}

#[test]
fn rotation_is_needed_only_when_a_non_empty_file_would_cross_the_limit() {
    assert!(!rotation_needed(0, 100, 10));
    assert!(!rotation_needed(5, 4, 10));
    assert!(rotation_needed(5, 5, 10));
    assert_eq!(size_after_write(5, 4), 10);
    assert_eq!(size_after_write(u64::MAX - 1, 10), u64::MAX);
    assert_eq!(rotated_path("/tmp/hubu.jsonl", 3), "/tmp/hubu.jsonl.3");
    assert_eq!(LOG_FILE_MAX_BYTES, 10 * 1024 * 1024);
    assert_eq!(LOG_FILE_RETAINED_GENERATIONS, 4);
}
