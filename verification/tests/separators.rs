use oatbar::bar::collapse_separators;
use oatbar::config::SeparatorType::{self, Gap, Left, Right};

fn shown(t: Option<SeparatorType>) -> (bool, Option<SeparatorType>) {
    (true, t)
}

fn hidden(t: Option<SeparatorType>) -> (bool, Option<SeparatorType>) {
    (false, t)
}

#[test]
fn separators_around_hidden_block_collapse() {
    let blocks = vec![shown(Some(Left)), hidden(None), shown(Some(Right))];
    assert_eq!(collapse_separators(&blocks), Vec::<usize>::new());
}

#[test]
fn all_visible_blocks_are_laid_out() {
    let blocks = vec![shown(Some(Left)), shown(None), shown(Some(Gap)), shown(None), shown(Some(Right))];
    assert_eq!(collapse_separators(&blocks), vec![0, 1, 2, 3, 4]);
}

#[test]
fn gap_before_right_edge_collapses() {
    let blocks = vec![shown(Some(Left)), shown(None), shown(Some(Gap)), hidden(None), shown(Some(Right))];
    assert_eq!(collapse_separators(&blocks), vec![0, 1, 4]);
}

#[test]
fn gap_after_left_edge_collapses() {
    let blocks = vec![shown(Some(Left)), hidden(None), shown(Some(Gap)), shown(None), shown(Some(Right))];
    assert_eq!(collapse_separators(&blocks), vec![0, 3, 4]);
}

#[test]
fn plain_blocks_only_lose_hidden_ones() {
    let blocks = vec![shown(None), hidden(None), shown(None)];
    assert_eq!(collapse_separators(&blocks), vec![0, 2]);
}

#[test]
fn leading_gaps_are_eaten() {
    let blocks = vec![shown(Some(Gap)), shown(Some(Gap)), shown(None), shown(Some(Gap)), shown(None)];
    assert_eq!(collapse_separators(&blocks), vec![2, 3, 4]);
}

#[test]
fn two_groups_one_empty() {
    let blocks = vec![
        shown(Some(Left)),
        shown(None),
        shown(Some(Right)),
        shown(Some(Left)),
        hidden(None),
        shown(Some(Right)),
    ];
    assert_eq!(collapse_separators(&blocks), vec![0, 1, 2]);
}
