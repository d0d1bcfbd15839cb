use fight_game::grid::SolidGrid;
use fight_game::mesh::build_mesh;
use fight_game::mesh::row_plates;
use fight_game::mesh::Rect;

fn grid_from(rows: &[&str]) -> SolidGrid {
    let height = rows.len();
    let width = if height == 0 { 0 } else { rows[0].len() };
    let mut solid = Vec::new();
    for row in rows {
        assert_eq!(row.len(), width);
        for ch in row.chars() {
            solid.push(ch == '#');
        }
    }
    SolidGrid::new(width, height, solid)
}

fn covers(r: &Rect, x: usize, y: usize) -> bool {
    r.left <= x && x <= r.right && r.bottom <= y && y <= r.top
}

#[test]
fn single_row_three_cells() {
    let g = grid_from(&["###"]);
    let rects = build_mesh(&g);
    assert_eq!(rects.len(), 1);
    assert_eq!(rects[0], Rect { left: 0, right: 2, bottom: 0, top: 0 });
}

#[test]
fn l_shape_two_rects() {
    let g = grid_from(&["###", "#.."]);
    let rects = build_mesh(&g);
    assert_eq!(rects.len(), 2);
    assert_eq!(rects[0], Rect { left: 0, right: 2, bottom: 0, top: 0 });
    assert_eq!(rects[1], Rect { left: 0, right: 0, bottom: 1, top: 1 });
}

#[test]
fn rebuild_same_mesh() {
    let g = grid_from(&["#.#.", "####", "..##"]);
    let first = build_mesh(&g);
    let second = build_mesh(&g);
    assert_eq!(first, second);
}

#[test]
fn vertical_merge_single_column() {
    let g = grid_from(&["#", "#", "#"]);
    let rects = build_mesh(&g);
    assert_eq!(rects.len(), 1);
    assert_eq!(rects[0], Rect { left: 0, right: 0, bottom: 0, top: 2 });
}

#[test]
fn full_grid_single_rect() {
    let g = grid_from(&["####", "####", "####"]);
    let rects = build_mesh(&g);
    assert_eq!(rects.len(), 1);
    assert_eq!(rects[0], Rect { left: 0, right: 3, bottom: 0, top: 2 });
}

#[test]
fn empty_grid_no_rects() {
    let g = grid_from(&["...", "..."]);
    let rects = build_mesh(&g);
    assert_eq!(rects.len(), 0);
}

#[test]
fn differing_spans_do_not_merge() {
    let g = grid_from(&["##", ".#"]);
    let rects = build_mesh(&g);
    assert_eq!(rects.len(), 2);
    assert_eq!(rects[0], Rect { left: 0, right: 1, bottom: 0, top: 0 });
    assert_eq!(rects[1], Rect { left: 1, right: 1, bottom: 1, top: 1 });
}

#[test]
fn coverage_exact_and_disjoint_checkerboard() {
    let rows = ["#.#", ".#.", "#.#"];
    let g = grid_from(&rows);
    let rects = build_mesh(&g);
    for y in 0..3 {
        for x in 0..3 {
            let solid = rows[y].as_bytes()[x] == b'#';
            let n = rects.iter().filter(|r| covers(r, x, y)).count();
            assert_eq!(n, if solid { 1 } else { 0 });
        }
    }
}

#[test]
fn coverage_exact_and_disjoint_irregular() {
    let rows = ["####..", "##..##", "##..##", "######"];
    let g = grid_from(&rows);
    let rects = build_mesh(&g);
    for y in 0..4 {
        for x in 0..6 {
            let solid = rows[y].as_bytes()[x] == b'#';
            let n = rects.iter().filter(|r| covers(r, x, y)).count();
            assert_eq!(n, if solid { 1 } else { 0 });
        }
    }
}

#[test]
fn row_plates_maximal_runs() {
    let g = grid_from(&["##.#"]);
    let ps = row_plates(&g, 0);
    assert_eq!(ps.len(), 2);
    assert_eq!((ps[0].left, ps[0].right), (0, 1));
    assert_eq!((ps[1].left, ps[1].right), (3, 3));
}
