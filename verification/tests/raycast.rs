use shoota2::camera::Camera;
use shoota2::fixed::{FAR, MAX_LENGTH, ONE};
use shoota2::grid::{GridMap, MAX_MAP_SIDE};
use shoota2::raycast::{
    cast_column,
    landing_fraction,
    perpendicular_distance,
    ray_direction,
    HitRecord,
};
use shoota2::vector::Vec2;

fn fixed(v: f64) -> i64 {
    (v * ONE as f64).round() as i64
}

fn as_real(v: i64) -> f64 {
    v as f64 / ONE as f64
}

fn camera_at(x: f64, y: f64, dx: f64, dy: f64, px: f64, py: f64) -> Camera {
    Camera::new(
        Vec2::new(fixed(x), fixed(y)),
        Vec2::new(fixed(dx), fixed(dy)),
        Vec2::new(fixed(px), fixed(py)),
    )
    .unwrap()
}

fn cell_room() -> GridMap {
    GridMap::new(3, 3, vec![1, 1, 1, 1, 0, 1, 1, 1, 1]).unwrap()
}

/// A room of three by three empty cells, each wall of its own material:
/// 1 in the north, 2 in the east, 3 in the south, 4 in the west, 9 in the corners.
fn square_room() -> GridMap {
    GridMap::new(
        5,
        5,
        vec![
            9, 1, 1, 1, 9, //
            4, 0, 0, 0, 2, //
            4, 0, 0, 0, 2, //
            4, 0, 0, 0, 2, //
            9, 3, 3, 3, 9,
        ],
    )
    .unwrap()
}

fn world() -> GridMap {
    let rows: [[u8; 24]; 24] = [
        [4, 4, 4, 4, 4, 4, 4, 4, 4, 4, 4, 4, 4, 4, 4, 4, 7, 7, 7, 7, 7, 7, 7, 7],
        [4, 0, 0, 0, 0, 0, 0, 0, 0, 0, 0, 0, 0, 0, 0, 0, 7, 0, 0, 0, 0, 0, 0, 7],
        [4, 0, 1, 0, 0, 0, 0, 0, 0, 0, 0, 0, 0, 0, 0, 0, 0, 0, 0, 0, 0, 0, 0, 7],
        [4, 0, 2, 0, 0, 0, 0, 0, 0, 0, 0, 0, 0, 0, 0, 0, 0, 0, 0, 0, 0, 0, 0, 7],
        [4, 0, 3, 0, 0, 0, 0, 0, 0, 0, 0, 0, 0, 0, 0, 0, 7, 0, 0, 0, 0, 0, 0, 7],
        [4, 0, 4, 0, 0, 0, 0, 5, 5, 5, 5, 5, 5, 5, 5, 5, 7, 7, 0, 7, 7, 7, 7, 7],
        [4, 0, 5, 0, 0, 0, 0, 5, 0, 5, 0, 5, 0, 5, 0, 5, 7, 0, 0, 0, 7, 7, 7, 1],
        [4, 0, 6, 0, 0, 0, 0, 5, 0, 0, 0, 0, 0, 0, 0, 5, 7, 0, 0, 0, 0, 0, 0, 8],
        [4, 0, 7, 0, 0, 0, 0, 0, 0, 0, 0, 0, 0, 0, 0, 0, 0, 0, 0, 0, 7, 7, 7, 1],
        [4, 0, 8, 0, 0, 0, 0, 5, 0, 0, 0, 0, 0, 0, 0, 5, 7, 0, 0, 0, 0, 0, 0, 8],
        [4, 0, 0, 0, 0, 0, 0, 5, 0, 0, 0, 0, 0, 0, 0, 5, 7, 0, 0, 0, 7, 7, 7, 1],
        [4, 0, 0, 0, 0, 0, 0, 5, 5, 5, 5, 0, 5, 5, 5, 5, 7, 7, 7, 7, 7, 7, 7, 1],
        [6, 6, 6, 6, 6, 6, 6, 6, 6, 6, 6, 0, 6, 6, 6, 6, 6, 6, 6, 6, 6, 6, 6, 6],
        [8, 0, 0, 0, 0, 0, 0, 0, 0, 0, 0, 0, 0, 0, 0, 0, 0, 0, 0, 0, 0, 0, 0, 4],
        [6, 6, 6, 6, 6, 6, 0, 6, 6, 6, 6, 0, 6, 6, 6, 6, 6, 6, 6, 6, 6, 6, 6, 6],
        [4, 4, 4, 4, 4, 4, 0, 4, 4, 4, 6, 0, 6, 2, 2, 2, 2, 2, 2, 2, 3, 3, 3, 3],
        [4, 0, 0, 0, 0, 0, 0, 0, 0, 4, 6, 0, 6, 2, 0, 0, 0, 0, 0, 2, 0, 0, 0, 2],
        [4, 0, 0, 0, 0, 0, 0, 0, 0, 0, 0, 0, 6, 2, 0, 0, 5, 0, 0, 2, 0, 0, 0, 2],
        [4, 0, 0, 0, 0, 0, 0, 0, 0, 4, 6, 0, 6, 2, 0, 0, 0, 0, 0, 2, 2, 0, 2, 2],
        [4, 0, 6, 0, 6, 0, 0, 0, 0, 4, 6, 0, 0, 0, 0, 0, 5, 0, 0, 0, 0, 0, 0, 2],
        [4, 0, 0, 5, 0, 0, 0, 0, 0, 4, 6, 0, 6, 2, 0, 0, 0, 0, 0, 2, 2, 0, 2, 2],
        [4, 0, 6, 0, 6, 0, 0, 0, 0, 4, 6, 0, 6, 2, 0, 0, 5, 0, 0, 2, 0, 0, 0, 2],
        [4, 0, 0, 0, 0, 0, 0, 0, 0, 4, 6, 0, 6, 2, 0, 0, 0, 0, 0, 2, 0, 0, 0, 2],
        [4, 4, 4, 4, 4, 4, 4, 4, 4, 4, 1, 1, 1, 2, 2, 2, 2, 2, 2, 3, 3, 3, 3, 3],
    ];
    let mut cells = Vec::new();
    for row in rows.iter() {
        cells.extend_from_slice(row);
    }
    GridMap::new(24, 24, cells).unwrap()
}

#[test]
fn centre_column_of_a_one_cell_room() {
    let map = cell_room();
    let camera = camera_at(1.5, 1.5, 1.0, 0.0, 0.0, 0.66);
    let hit = cast_column(&camera, 50, 100, &map);
    assert!(!hit.side_hit);
    assert_eq!(hit.perpendicular_distance, ONE / 2);
    assert_eq!(hit.cell_code, 1);
}

#[test]
fn every_column_of_a_one_cell_room_meets_a_wall() {
    let map = cell_room();
    let camera = camera_at(1.5, 1.5, 1.0, 0.0, 0.0, 0.66);
    for column in 0..100 {
        let hit = cast_column(&camera, column, 100, &map);
        assert_eq!(hit.cell_code, 1);
        assert!(!hit.side_hit);
        assert_eq!(hit.perpendicular_distance, ONE / 2);
        assert!(0 <= hit.wall_fraction && hit.wall_fraction < ONE);
    }
}

#[test]
fn cardinal_rays_facing_east() {
    let map = square_room();
    let camera = camera_at(2.5, 2.5, 1.0, 0.0, 0.0, 0.66);
    for column in [0, 320, 639] {
        let hit = cast_column(&camera, column, 640, &map);
        assert_eq!(hit.cell_code, 2);
        assert!(!hit.side_hit);
        assert_eq!(hit.perpendicular_distance, ONE + ONE / 2);
    }
}

#[test]
fn cardinal_rays_facing_west() {
    let map = square_room();
    let camera = camera_at(2.5, 2.5, -1.0, 0.0, 0.0, -0.66);
    for column in [0, 320, 639] {
        let hit = cast_column(&camera, column, 640, &map);
        assert_eq!(hit.cell_code, 4);
        assert!(!hit.side_hit);
        assert_eq!(hit.perpendicular_distance, ONE + ONE / 2);
    }
}

#[test]
fn cardinal_rays_facing_south() {
    let map = square_room();
    let camera = camera_at(2.5, 2.5, 0.0, 1.0, -0.66, 0.0);
    for column in [0, 320, 639] {
        let hit = cast_column(&camera, column, 640, &map);
        assert_eq!(hit.cell_code, 3);
        assert!(hit.side_hit);
        assert_eq!(hit.perpendicular_distance, ONE + ONE / 2);
    }
}

#[test]
fn cardinal_rays_facing_north() {
    let map = square_room();
    let camera = camera_at(2.5, 2.5, 0.0, -1.0, 0.66, 0.0);
    for column in [0, 320, 639] {
        let hit = cast_column(&camera, column, 640, &map);
        assert_eq!(hit.cell_code, 1);
        assert!(hit.side_hit);
        assert_eq!(hit.perpendicular_distance, ONE + ONE / 2);
    }
}

#[test]
fn distances_agree_with_the_geometry_of_the_room() {
    // From the centre of the room the ray of column c leaves in the direction
    // (1, 0.66 * (2c/w - 1)); it meets the east wall at distance 1.5 along x,
    // so its length there is 1.5 * |ray|, and the perpendicular distance is
    // that length times the cosine of its angle to the forward vector.
    let map = square_room();
    let camera = camera_at(2.5, 2.5, 1.0, 0.0, 0.0, 0.66);
    let width = 200;
    for column in [0, 1, 50, 100, 150, 199] {
        let hit = cast_column(&camera, column, width, &map);
        let k = 0.66 * (2.0 * column as f64 / width as f64 - 1.0);
        let length = 1.5 * (1.0 + k * k).sqrt();
        let cosine = 1.0 / (1.0 + k * k).sqrt();
        assert!((as_real(hit.perpendicular_distance) - length * cosine).abs() < 1e-9);
        let landed = 2.5 + 1.5 * k;
        let fraction = landed - landed.floor();
        assert!((as_real(hit.wall_fraction) - (1.0 - fraction)).abs() < 1e-8);
    }
}

#[test]
fn wide_plane_reaches_the_side_walls() {
    // The ray of column 0 has direction (1, -2): from (2.5, 2.5) it crosses
    // y = 1 after 0.75 of its direction, at x = 3.25, and enters the north wall.
    let map = square_room();
    let camera = camera_at(2.5, 2.5, 1.0, 0.0, 0.0, 2.0);
    let hit = cast_column(&camera, 0, 100, &map);
    assert_eq!(hit.cell_code, 1);
    assert!(hit.side_hit);
    assert_eq!(hit.perpendicular_distance, 3 * ONE / 4);
    // landed at x = 3.25; the ray runs toward negative y, so the face is mirrored
    assert_eq!(hit.wall_fraction, ONE - 1 - ONE / 4);
}

#[test]
fn wall_fraction_on_an_east_wall_is_mirrored() {
    // Column 75 of 100: the ray is (1, 0.33); it meets x = 2 after 0.5, at
    // y = 1.5 + 0.165.
    let map = cell_room();
    let plane_y = fixed(0.66);
    let camera = camera_at(1.5, 1.5, 1.0, 0.0, 0.0, 0.66);
    let hit = cast_column(&camera, 75, 100, &map);
    let landed = ONE / 2 + plane_y / 4;
    assert!(!hit.side_hit);
    assert_eq!(hit.wall_fraction, ONE - 1 - landed);
}

#[test]
fn wall_fraction_on_a_west_wall_is_not_mirrored() {
    let map = cell_room();
    let plane_y = fixed(0.66);
    let camera = camera_at(1.5, 1.5, -1.0, 0.0, 0.0, -0.66);
    // Column 75 of 100: the ray is (-1, -0.33); it meets x = 1 after 0.5, at
    // y = 1.5 - 0.165, rounded down.
    let hit = cast_column(&camera, 75, 100, &map);
    let shift = (plane_y + 3) / 4;
    assert!(!hit.side_hit);
    assert_eq!(hit.perpendicular_distance, ONE / 2);
    assert_eq!(hit.wall_fraction, ONE / 2 - shift);
}

#[test]
fn wall_fraction_on_north_and_south_walls() {
    let map = cell_room();
    let plane = fixed(0.66);
    // facing south (y grows): not mirrored; the ray of column 75 is (-0.33, 1)
    let south = cast_column(&camera_at(1.5, 1.5, 0.0, 1.0, -0.66, 0.0), 75, 100, &map);
    assert!(south.side_hit);
    assert_eq!(south.perpendicular_distance, ONE / 2);
    assert_eq!(south.wall_fraction, ONE / 2 - (plane + 3) / 4);
    // facing north (y falls): mirrored; the ray of column 75 is (0.33, -1)
    let north = cast_column(&camera_at(1.5, 1.5, 0.0, -1.0, 0.66, 0.0), 75, 100, &map);
    assert!(north.side_hit);
    assert_eq!(north.perpendicular_distance, ONE / 2);
    assert_eq!(north.wall_fraction, ONE - 1 - (ONE / 2 + plane / 4));
}

#[test]
fn ray_along_an_axis_never_turns() {
    let map = square_room();
    // plane of length zero: every ray is the forward vector
    let camera = camera_at(1.25, 3.75, 0.0, -1.0, 0.0, 0.0);
    for column in [0, 7, 15] {
        let hit = cast_column(&camera, column, 16, &map);
        assert_eq!(hit.cell_code, 1);
        assert!(hit.side_hit);
        assert_eq!(hit.perpendicular_distance, 2 * ONE + 3 * ONE / 4);
        assert_eq!(hit.wall_fraction, ONE - 1 - ONE / 4);
    }
}

#[test]
fn ray_of_no_direction_is_far() {
    let map = square_room();
    let camera = camera_at(2.5, 2.5, 0.0, 0.0, 0.0, 0.0);
    let hit = cast_column(&camera, 3, 8, &map);
    assert_eq!(hit.cell_code, 3);
    assert!(hit.side_hit);
    assert_eq!(hit.perpendicular_distance, FAR);
    assert_eq!(hit.wall_fraction, ONE / 2);
}

#[test]
fn camera_on_a_grid_line_sees_the_wall_at_no_distance() {
    // At x = 1 exactly, looking west: the wall face is where the camera is.
    let map = cell_room();
    let camera = camera_at(1.0, 1.5, -1.0, 0.0, 0.0, -0.66);
    let hit = cast_column(&camera, 50, 100, &map);
    assert_eq!(hit.cell_code, 1);
    assert!(!hit.side_hit);
    assert_eq!(hit.perpendicular_distance, 0);
    assert_eq!(hit.wall_fraction, ONE / 2);
}

#[test]
fn tie_between_the_two_lines_crosses_the_horizontal_one() {
    // Along the diagonal both lines are equally near: the horizontal one is
    // crossed first, so the ray goes down, right, down, right, and then down
    // into the south wall.
    let map = square_room();
    let camera = camera_at(1.5, 1.5, 1.0, 1.0, 0.0, 0.0);
    let hit = cast_column(&camera, 0, 1, &map);
    assert!(hit.side_hit);
    assert_eq!(hit.cell_code, 3);
    assert_eq!(hit.perpendicular_distance, 2 * ONE + ONE / 2);
}

#[test]
fn spawn_pose_of_the_large_map() {
    let map = world();
    let camera = camera_at(12.0, 12.0, -1.0, 0.0, 0.0, 0.66);
    let hit = cast_column(&camera, 512, 1024, &map);
    assert_eq!(hit.cell_code, 6);
    assert!(!hit.side_hit);
    assert_eq!(hit.perpendicular_distance, ONE);
    assert_eq!(hit.wall_fraction, 0);
}

#[test]
fn every_ray_in_the_large_map_ends_in_a_wall() {
    let map = world();
    let mut seen = 0;
    for row in 1..23 {
        for col in 1..23 {
            if map.cell_at(row, col) != 0 {
                continue;
            }
            for step in 0..16 {
                let angle = step as f64 * std::f64::consts::PI / 8.0 + 0.01;
                let (sin, cos) = angle.sin_cos();
                let camera = camera_at(
                    col as f64 + 0.5,
                    row as f64 + 0.25,
                    cos,
                    sin,
                    -0.66 * sin,
                    0.66 * cos,
                );
                for column in [0, 13, 31] {
                    let hit: HitRecord = cast_column(&camera, column, 32, &map);
                    assert!(hit.cell_code != 0);
                    assert!(hit.perpendicular_distance > 0);
                    assert!(as_real(hit.perpendicular_distance) < 34.0);
                    assert!(0 <= hit.wall_fraction && hit.wall_fraction < ONE);
                    seen += 1;
                }
            }
        }
    }
    assert!(seen > 1000);
}

/// The same traversal in floating point: (code, side, distance, fraction
/// before mirroring), or nothing where two grid lines were too nearly equally
/// far for floating point to tell their order.
fn float_cast(
    map: &GridMap,
    pos: (f64, f64),
    dir: (f64, f64),
    plane: (f64, f64),
    column: usize,
    width: usize,
) -> Option<(u8, bool, f64, f64)> {
    let camera_x = (2 * column) as f64 / width as f64 - 1.0;
    let ray = (dir.0 + plane.0 * camera_x, dir.1 + plane.1 * camera_x);
    let delta_x = if ray.0 == 0.0 { 1.0e10 } else { (1.0 / ray.0).abs() };
    let delta_y = if ray.1 == 0.0 { 1.0e10 } else { (1.0 / ray.1).abs() };
    let mut map_x = pos.0 as i32;
    let mut map_y = pos.1 as i32;
    let (step_x, mut side_x) = if ray.0 < 0.0 {
        (-1, (pos.0 - map_x as f64) * delta_x)
    } else {
        (1, (map_x as f64 + 1.0 - pos.0) * delta_x)
    };
    let (step_y, mut side_y) = if ray.1 < 0.0 {
        (-1, (pos.1 - map_y as f64) * delta_y)
    } else {
        (1, (map_y as f64 + 1.0 - pos.1) * delta_y)
    };
    let mut side;
    loop {
        if (side_x - side_y).abs() < 1e-7 {
            return None;
        }
        if side_x < side_y {
            side_x += delta_x;
            map_x += step_x;
            side = false;
        } else {
            side_y += delta_y;
            map_y += step_y;
            side = true;
        }
        if map.cell_at(map_y as usize, map_x as usize) > 0 {
            break;
        }
    }
    let distance = if side { side_y - delta_y } else { side_x - delta_x };
    let mut wall = if side { pos.0 + distance * ray.0 } else { pos.1 + distance * ray.1 };
    wall -= wall.floor();
    Some((map.cell_at(map_y as usize, map_x as usize), side, distance, wall))
}

#[test]
fn agrees_with_the_traversal_in_floating_point() {
    let map = world();
    let width = 64;
    let mut compared = 0;
    for row in 1..23 {
        for col in 1..23 {
            if map.cell_at(row, col) != 0 {
                continue;
            }
            for turn in 0..12 {
                let angle = turn as f64 * 0.5236 + 0.1234;
                let (sin, cos) = angle.sin_cos();
                let pos = (col as f64 + 0.3125, row as f64 + 0.6875);
                let dir = (as_real(fixed(cos)), as_real(fixed(sin)));
                let plane = (as_real(fixed(-0.66 * sin)), as_real(fixed(0.66 * cos)));
                let camera = camera_at(pos.0, pos.1, dir.0, dir.1, plane.0, plane.1);
                for column in [0, 9, 21, 32, 40, 63] {
                    let Some((code, side, distance, wall)) =
                        float_cast(&map, pos, dir, plane, column, width)
                    else {
                        continue;
                    };
                    let hit = cast_column(&camera, column, width, &map);
                    assert_eq!(hit.cell_code, code);
                    assert_eq!(hit.side_hit, side);
                    assert!((as_real(hit.perpendicular_distance) - distance).abs() < 1e-6);
                    let camera_x = (2 * column) as f64 / width as f64 - 1.0;
                    let ray = (dir.0 + plane.0 * camera_x, dir.1 + plane.1 * camera_x);
                    let mirrored = (!side && ray.0 > 0.0) || (side && ray.1 < 0.0);
                    let seen = if mirrored { 1.0 - wall } else { wall };
                    let gap = (as_real(hit.wall_fraction) - seen).abs();
                    assert!(gap < 1e-6 || gap > 1.0 - 1e-6);
                    compared += 1;
                }
            }
        }
    }
    assert!(compared > 10_000);
}

#[test]
fn ray_through_the_longest_corridor() {
    let mut cells = vec![1u8; 3 * MAX_MAP_SIDE];
    for col in 1..MAX_MAP_SIDE - 1 {
        cells[MAX_MAP_SIDE + col] = 0;
    }
    cells[2 * MAX_MAP_SIDE - 1] = 5;
    let map = GridMap::new(MAX_MAP_SIDE, 3, cells).unwrap();
    let camera = camera_at(1.5, 1.5, 1.0, 0.0, 0.0, 0.000001);
    let hit = cast_column(&camera, 8192, 16384, &map);
    assert_eq!(hit.cell_code, 5);
    assert!(!hit.side_hit);
    assert_eq!(hit.perpendicular_distance, (MAX_MAP_SIDE as i64 - 3) * ONE + ONE / 2);
    assert_eq!(hit.wall_fraction, ONE - 1 - ONE / 2);
    // looking back, the near end of the corridor is half a cell away
    let back = camera_at(1.5, 1.5, -1.0, 0.0, 0.0, -0.000001);
    let hit = cast_column(&back, 0, 16384, &map);
    assert_eq!(hit.cell_code, 1);
    assert_eq!(hit.perpendicular_distance, ONE / 2);
}

#[test]
fn shortest_direction_sees_every_wall_far() {
    // a direction of one unit of fixed point: distances count in its lengths
    let map = cell_room();
    let camera =
        Camera::new(Vec2::new(3 * ONE / 2, 3 * ONE / 2), Vec2::new(1, 0), Vec2::new(0, 1)).unwrap();
    let hit = cast_column(&camera, 5, 10, &map);
    assert_eq!(hit.cell_code, 1);
    assert!(!hit.side_hit);
    assert_eq!(hit.perpendicular_distance, FAR);
    // half a cell in lengths of 2 units is just within range
    let camera =
        Camera::new(Vec2::new(3 * ONE / 2, 3 * ONE / 2), Vec2::new(2, 0), Vec2::new(0, 1)).unwrap();
    let hit = cast_column(&camera, 5, 10, &map);
    assert_eq!(hit.perpendicular_distance, ONE / 4 * ONE);
}

#[test]
fn longest_direction_sees_every_wall_near() {
    let map = square_room();
    let camera = Camera::new(
        Vec2::new(5 * ONE / 2, 5 * ONE / 2),
        Vec2::new(MAX_LENGTH, 0),
        Vec2::new(0, MAX_LENGTH),
    )
    .unwrap();
    let centre = cast_column(&camera, 8192, 16384, &map);
    assert_eq!(centre.cell_code, 2);
    assert_eq!(centre.perpendicular_distance, (3 * ONE / 2) / 256);
    let first = cast_column(&camera, 0, 16384, &map);
    assert_eq!(first.cell_code, 1);
    assert!(first.side_hit);
    assert_eq!(first.perpendicular_distance, (3 * ONE / 2) / 256);
    // the ray of the last column is a little less steep than the diagonal
    let last = cast_column(&camera, 16383, 16384, &map);
    assert_eq!(last.cell_code, 2);
    assert!(!last.side_hit);
    assert_eq!(last.perpendicular_distance, (3 * ONE / 2) / 256);
}

#[test]
fn ray_direction_is_scaled_by_the_width() {
    let camera = camera_at(1.5, 1.5, 1.0, 0.5, -0.25, 0.75);
    let first = ray_direction(&camera, 0, 100);
    assert_eq!(first, Vec2::new(100 * ONE + 25 * ONE, 50 * ONE - 75 * ONE));
    let middle = ray_direction(&camera, 50, 100);
    assert_eq!(middle, Vec2::new(100 * ONE, 50 * ONE));
    let last = ray_direction(&camera, 99, 100);
    assert_eq!(last, Vec2::new(100 * ONE - 98 * ONE / 4, 50 * ONE + 98 * 3 * ONE / 4));
}

#[test]
fn perpendicular_distance_is_a_quotient() {
    // reach 1.5 along an axis on which the ray advances 3 per width 4: 1.5 * 4 / 3
    assert_eq!(perpendicular_distance(3 * ONE as u64 / 2, 3 * ONE as u64, 4), 2 * ONE);
    // rounded down
    assert_eq!(perpendicular_distance(1, 3, 1), ONE / 3);
    assert_eq!(perpendicular_distance(0, 5, 7), 0);
}

#[test]
fn perpendicular_distance_stops_at_far() {
    assert_eq!(perpendicular_distance(ONE as u64, 0, 100), FAR);
    assert_eq!(perpendicular_distance(1 << 48, 1, 16384), FAR);
    assert_eq!(perpendicular_distance(1 << 31, 1, 1), FAR);
    assert_eq!(perpendicular_distance((1 << 31) - 1, 1, 1), ((1 << 31) - 1) * ONE);
}

#[test]
fn landing_fraction_rounds_down() {
    // from 2.5, reach 1, moving 1 across for 4 along: lands at 2.75
    assert_eq!(landing_fraction(5 * ONE / 2, ONE as u64, 1, 4), 3 * ONE / 4);
    // moving -1 across for 4 along: lands at 2.25
    assert_eq!(landing_fraction(5 * ONE / 2, ONE as u64, -1, 4), ONE / 4);
    // 7 / 2 rounds down to 3, -7 / 2 down to -4
    assert_eq!(landing_fraction(100, 7, 1, 2), 103);
    assert_eq!(landing_fraction(100, 7, -1, 2), 96);
    // below zero the fraction still lies in [0, ONE)
    assert_eq!(landing_fraction(0, 1, -1, 1), ONE - 1);
    assert_eq!(landing_fraction(0, ONE as u64, -1, 1), 0);
    // no advance along the axis: the ray lands where it started
    assert_eq!(landing_fraction(5 * ONE / 2, ONE as u64, 3, 0), ONE / 2);
}
