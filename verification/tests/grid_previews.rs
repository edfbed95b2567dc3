use gnil_app::previews::{GridPreviewState, GridPreviews, GRID_PREVIEW_CONCURRENCY};

fn keys(requests: &[gnil_app::previews::GridPreviewRequest]) -> Vec<&str> {
    requests.iter().map(|r| r.key.as_str()).collect()
}

#[test]
fn at_most_two_previews_load_at_once_in_request_order() {
    assert_eq!(GRID_PREVIEW_CONCURRENCY, 2);
    let mut grid = GridPreviews::new();
    let first = grid.ensure("/d/a".into(), "/d/a".into());
    assert_eq!(keys(&first), vec!["/d/a"]);
    let second = grid.ensure("/d/b".into(), "/d/b".into());
    assert_eq!(keys(&second), vec!["/d/b"]);
    let third = grid.ensure("/d/c".into(), "/d/c".into());
    assert!(third.is_empty());
    assert_eq!(grid.inflight.len(), 2);
    assert_eq!(grid.queue.len(), 1);
    assert!(matches!(grid.preview("/d/c"), Some(GridPreviewState::Loading)));

    let next = grid.finish("/d/a", grid.generation, GridPreviewState::Text(vec!["hello".into()]));
    assert_eq!(keys(&next), vec!["/d/c"]);
    match grid.preview("/d/a") {
        Some(GridPreviewState::Text(lines)) => assert_eq!(lines, &vec!["hello".to_string()]),
        _ => panic!("the text preview is kept"),
    }
    assert_eq!(grid.inflight.len(), 2);
}

#[test]
fn asking_again_for_a_card_changes_nothing() {
    let mut grid = GridPreviews::new();
    grid.ensure("/d/a".into(), "/d/a".into());
    assert!(grid.ensure("/d/a/".into(), "/d/a".into()).is_empty());
    assert_eq!(grid.previews.len(), 1);
    assert_eq!(grid.queue.len(), 0);
    grid.finish("/d/a", grid.generation, GridPreviewState::Unavailable);
    assert!(grid.ensure("/d/a".into(), "/d/a".into()).is_empty());
    assert!(matches!(grid.preview("/d/a"), Some(GridPreviewState::Unavailable)));
}

#[test]
fn a_reset_drops_previews_that_were_loading() {
    let mut grid = GridPreviews::new();
    grid.ensure("/d/a".into(), "/d/a".into());
    let old_generation = grid.generation;
    grid.reset();
    assert_eq!(grid.generation, old_generation + 1);
    assert!(grid.previews.is_empty() && grid.queue.is_empty() && grid.inflight.is_empty());
    assert!(grid.finish("/d/a", old_generation, GridPreviewState::Thumbnail("/cache/a.png".into())).is_empty());
    assert!(grid.preview("/d/a").is_none());
}

#[test]
fn a_queued_request_for_a_key_already_loading_is_dropped() {
    let mut grid = GridPreviews::new();
    grid.ensure("/d/a".into(), "/d/a".into());
    grid.ensure("/d/b".into(), "/d/b".into());
    grid.ensure("/d/c".into(), "/d/c".into());
    grid.reset();
    grid.ensure("/d/x".into(), "/d/x".into());
    grid.ensure("/d/y".into(), "/d/y".into());
    grid.ensure("/d/z".into(), "/d/z".into());
    // a late answer from before the reset frees no slot of the new generation's keys
    let started = grid.finish("/d/a", 0, GridPreviewState::Unavailable);
    assert!(started.is_empty());
    assert_eq!(grid.inflight.len(), 2);
    let started = grid.finish("/d/x", grid.generation, GridPreviewState::Unavailable);
    assert_eq!(keys(&started), vec!["/d/z"]);
}


#[test]
fn switching_layout_resets_grid_previews_only_when_leaving_the_grid() {
    assert_eq!(gnil_app::previews::layout_switch(gnil_app::model::FileLayout::Grid, gnil_app::model::FileLayout::Grid), None);
    assert_eq!(
        gnil_app::previews::layout_switch(gnil_app::model::FileLayout::Grid, gnil_app::model::FileLayout::Details),
        Some(true)
    );
    assert_eq!(
        gnil_app::previews::layout_switch(gnil_app::model::FileLayout::Details, gnil_app::model::FileLayout::Grid),
        Some(false)
    );
}
