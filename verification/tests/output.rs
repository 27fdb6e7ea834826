use redtake::output::{allocate_output_path, candidate_path, PathExhaustedError};

fn names(items: &[&str]) -> Vec<String> {
    items.iter().map(|s| s.to_string()).collect()
}

#[test]
fn the_plain_name_is_taken_first() {
    assert_eq!(allocate_output_path(&vec![]), Ok("export.mp4".to_owned()));
    assert_eq!(
        allocate_output_path(&names(&["export (1).mp4", "other.mp4"])),
        Ok("export.mp4".to_owned())
    );
}

#[test]
fn the_first_free_number_follows() {
    assert_eq!(
        allocate_output_path(&names(&["export.mp4", "export (1).mp4"])),
        Ok("export (2).mp4".to_owned())
    );
    assert_eq!(allocate_output_path(&names(&["export.mp4"])), Ok("export (1).mp4".to_owned()));
    assert_eq!(
        allocate_output_path(&names(&["export (2).mp4", "export.mp4"])),
        Ok("export (1).mp4".to_owned())
    );
}

#[test]
fn candidates_are_numbered_from_one() {
    assert_eq!(candidate_path(0), "export.mp4");
    assert_eq!(candidate_path(1), "export (1).mp4");
    assert_eq!(candidate_path(9999), "export (9999).mp4");
}

#[test]
fn the_last_candidate_can_still_be_had() {
    let mut taken: Vec<String> = (0..9999).map(candidate_path).collect();
    assert_eq!(allocate_output_path(&taken), Ok("export (9999).mp4".to_owned()));
    taken.push(candidate_path(9999));
    assert_eq!(allocate_output_path(&taken), Err(PathExhaustedError { ceiling: 9999 }));
}
