use r_lsp::patterns::{
    is_cell_marker, parse_comment_as_section, parse_region_type, region_type_from_matches,
    section_from_captures, RegionType,
};

#[test]
fn section_headers_give_level_and_title() {
    assert_eq!(parse_comment_as_section("# Title ----"), Some((1, "Title".to_string())));
    assert_eq!(parse_comment_as_section("## Sub title ===="), Some((2, "Sub title".to_string())));
    assert_eq!(parse_comment_as_section("  ### Deep #### "), Some((3, "Deep".to_string())));
    assert_eq!(parse_comment_as_section("#### Four ####"), Some((4, "Four".to_string())));
}

#[test]
fn rules_without_titles_are_not_sections() {
    assert_eq!(parse_comment_as_section("# ----"), None);
    assert_eq!(parse_comment_as_section("#-----"), None);
}

#[test]
fn comments_without_rules_are_not_sections() {
    assert_eq!(parse_comment_as_section("# Title"), None);
    assert_eq!(parse_comment_as_section("# Title ---"), None);
    assert_eq!(parse_comment_as_section("x <- 1"), None);
}

#[test]
fn section_from_given_captures() {
    // groups: whole match, the `#`s, the title
    let caps = Some(Some(vec![Some((0, 11)), Some((0, 2)), Some((3, 5))]));
    assert_eq!(section_from_captures("## ab  ----", caps), Some((2, "ab".to_string())));
    assert_eq!(section_from_captures("## ab  ----", Some(None)), None);
    assert_eq!(section_from_captures("## ab  ----", None), None);
    let blank_title = Some(Some(vec![Some((0, 10)), Some((0, 2)), Some((2, 3))]));
    assert_eq!(section_from_captures("##    ----", blank_title), None);
    let missing_group = Some(Some(vec![Some((0, 11)), Some((0, 2)), None]));
    assert_eq!(section_from_captures("## ab  ----", missing_group), None);
}

#[test]
fn region_markers() {
    assert_eq!(parse_region_type("# region Setup"), Some(RegionType::Start));
    assert_eq!(parse_region_type("  #region"), Some(RegionType::Start));
    assert_eq!(parse_region_type("# endregion"), Some(RegionType::End));
    assert_eq!(parse_region_type("# regions"), None);
    assert_eq!(parse_region_type("x # region"), None);
}

#[test]
fn cell_markers() {
    assert!(is_cell_marker("# %% Load data"));
    assert!(is_cell_marker("#+ setup"));
    assert!(is_cell_marker("#%%"));
    assert!(!is_cell_marker(" # %%"));
    assert!(!is_cell_marker("# % x"));
}

#[test]
fn region_marker_word_boundaries() {
    assert_eq!(parse_region_type("# region-setup"), Some(RegionType::Start));
    assert_eq!(parse_region_type("#\tregion\tsetup"), Some(RegionType::Start));
    assert_eq!(parse_region_type("# region_setup"), None);
    assert_eq!(parse_region_type("# region2"), None);
    assert_eq!(parse_region_type("# endregion."), Some(RegionType::End));
    assert_eq!(parse_region_type("# endregions"), None);
    assert_eq!(parse_region_type("## region"), None);
}

#[test]
fn region_type_from_pattern_results() {
    assert_eq!(region_type_from_matches(true, false), Some(RegionType::Start));
    assert_eq!(region_type_from_matches(true, true), Some(RegionType::Start));
    assert_eq!(region_type_from_matches(false, true), Some(RegionType::End));
    assert_eq!(region_type_from_matches(false, false), None);
}

#[test]
fn section_levels_count_the_hashes() {
    assert_eq!(parse_comment_as_section("\t## Two ----"), Some((2, "Two".to_string())));
    assert_eq!(parse_comment_as_section("Title ----"), None);
    assert_eq!(parse_comment_as_section("# Title --=#"), Some((1, "Title".to_string())));
    assert_eq!(parse_comment_as_section("# Title ----\n"), Some((1, "Title".to_string())));
}

#[test]
fn cell_marker_needs_hash_first() {
    assert!(is_cell_marker("#\t+"));
    assert!(!is_cell_marker("%% #"));
    assert!(!is_cell_marker(""));
}

#[test]
fn plain_headers_and_bare_rules() {
    assert_eq!(parse_comment_as_section("# Section ----"), Some((1, "Section".to_string())));
    assert_eq!(parse_comment_as_section("  ### a -- b  ====  "), Some((3, "a -- b".to_string())));
    assert_eq!(parse_comment_as_section("## Data #### ----"), Some((2, "Data ####".to_string())));
    assert_eq!(parse_comment_as_section("########"), None);
    assert_eq!(parse_comment_as_section("  #=-=-  "), None);
}
