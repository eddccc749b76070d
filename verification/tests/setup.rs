use slideshow::slideshow::{
    control_plan, controls_class, link_class, next_class, prev_class, slide_flags,
    slideshow_selector,
};

#[test]
fn generated_markup_names() {
    assert_eq!(slideshow_selector(), ".slideshow");
    assert_eq!(prev_class(), "prev");
    assert_eq!(next_class(), "next");
    assert_eq!(controls_class(), "controls");
    assert_eq!(link_class(), "link");
}

#[test]
fn no_controls_for_empty_container() {
    assert!(control_plan(0).is_none());
}

#[test]
fn no_controls_for_single_slide() {
    // A single-slide container stays inert: no prev, next or numbered controls.
    assert!(control_plan(1).is_none());
}

#[test]
fn controls_for_three_slides() {
    let links = control_plan(3).expect("three slides need controls");
    assert_eq!(links.len(), 3);
    let targets: Vec<usize> = links.iter().map(|l| l.target).collect();
    assert_eq!(targets, vec![0, 1, 2]);
    let labels: Vec<&str> = links.iter().map(|l| l.label.as_str()).collect();
    assert_eq!(labels, vec!["1", "2", "3"]);
}

#[test]
fn controls_for_two_slides() {
    let links = control_plan(2).expect("two slides need controls");
    assert_eq!(links.len(), 2);
    assert_eq!(links[0].target, 0);
    assert_eq!(links[0].label, "1");
    assert_eq!(links[1].target, 1);
    assert_eq!(links[1].label, "2");
}

#[test]
fn only_div_children_count_as_slides() {
    let names = vec![
        "DIV".to_string(),
        "SPAN".to_string(),
        "DIV".to_string(),
        "#text".to_string(),
        "div".to_string(),
    ];
    let flags = slide_flags(&names);
    assert_eq!(flags, vec![true, false, true, false, false]);
}

#[test]
fn no_children_no_slides() {
    let flags = slide_flags(&Vec::new());
    assert!(flags.is_empty());
}
