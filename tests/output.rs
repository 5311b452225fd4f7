use vim_slides::pipeline::{
    editor_name, keeps_watching, plan_regeneration, watch_action, Destination, PipelineError,
    RegenerationPlan, VimSlidesArgs, WatchAction, WatchEvent,
};
use vim_slides::render::{
    decimal_string, notes_document_of, slide_file_name, slide_id, slide_text_of,
};
use vim_slides::segment::split_to_slides;

const SCENARIO: &str = "# Intro\nhello\n\n# Details\nworld\n<!-- remember X -->";

fn files(plan: &RegenerationPlan) -> Vec<(String, String)> {
    plan.files.iter().map(|f| (f.name.clone(), f.body.clone())).collect()
}

#[test]
fn decimal_digits() {
    assert_eq!(decimal_string(0), "0");
    assert_eq!(decimal_string(7), "7");
    assert_eq!(decimal_string(1234), "1234");
}

#[test]
fn slide_ids_are_zero_padded() {
    assert_eq!(slide_id(1), "001");
    assert_eq!(slide_id(42), "042");
    assert_eq!(slide_id(999), "999");
    assert_eq!(slide_id(1000), "1000");
    assert_eq!(slide_id(12345), "12345");
}

#[test]
fn slide_file_names() {
    assert_eq!(slide_file_name(2), "002.md");
    assert_eq!(slide_file_name(1001), "1001.md");
}

#[test]
fn slide_text_is_trimmed() {
    let slides = split_to_slides(SCENARIO);
    assert_eq!(slide_text_of(&slides[0]), "# Intro\nhello");
    assert_eq!(slide_text_of(&slides[1]), "# Details\nworld");
    let bare = split_to_slides("# Only\n");
    assert_eq!(slide_text_of(&bare[0]), "# Only");
}

#[test]
fn scenario_files() {
    let plan = plan_regeneration(SCENARIO, Destination::Missing, false).ok().unwrap();
    assert!(plan.create_dir);
    assert_eq!(
        files(&plan),
        vec![
            ("001.md".to_string(), "# Intro\nhello".to_string()),
            ("002.md".to_string(), "# Details\nworld".to_string()),
        ]
    );
    assert!(plan.notes.is_none());
}

#[test]
fn notes_document_layout() {
    let slides = split_to_slides(SCENARIO);
    assert_eq!(
        notes_document_of(&slides),
        "# Speaker notes\n# Intro(slide 1)\nempty\n\n# Details(slide 2)\nremember X\n\n\n"
    );
    let plan = plan_regeneration(SCENARIO, Destination::Directory, true).ok().unwrap();
    assert_eq!(plan.notes.unwrap(), notes_document_of(&slides));
}

#[test]
fn file_destination_is_a_conflict() {
    let r = plan_regeneration(SCENARIO, Destination::File, true);
    assert!(matches!(r, Err(PipelineError::DestinationConflict)));
}

#[test]
fn second_run_writes_the_same_files() {
    let first = plan_regeneration(SCENARIO, Destination::Missing, true).ok().unwrap();
    let second = plan_regeneration(SCENARIO, Destination::Directory, true).ok().unwrap();
    assert!(first.create_dir);
    assert!(!second.create_dir);
    assert_eq!(files(&first), files(&second));
    assert_eq!(first.notes, second.notes);
}

#[test]
fn empty_document_plans_no_files() {
    let plan = plan_regeneration("no headings here", Destination::Directory, false).ok().unwrap();
    assert!(plan.files.is_empty());
}

#[test]
fn watch_decisions() {
    assert_eq!(watch_action(WatchEvent::Changed), WatchAction::Regenerate { verbose: false });
    assert_eq!(watch_action(WatchEvent::Notice), WatchAction::Ignore);
    assert_eq!(watch_action(WatchEvent::Failed), WatchAction::Report);
    assert!(keeps_watching(&Ok(())));
    assert!(!keeps_watching(&Err(PipelineError::WriteError)));
}

#[test]
fn invocation_defaults() {
    let a = VimSlidesArgs::new("talk.md".to_string(), None);
    assert_eq!(a.source_file, "talk.md");
    assert_eq!(a.destination, "./slides");
    let b = VimSlidesArgs::new("talk.md".to_string(), Some("out".to_string()));
    assert_eq!(b.destination, "out");
    assert_eq!(editor_name(None), "vi");
    assert_eq!(editor_name(Some("nvim".to_string())), "nvim");
}
