use pyroclear::render::render;

fn palette() -> Vec<(u8, u8, u8)> {
    (0..37).map(|i| (i as u8, 100, 255 - i as u8)).collect()
}

fn rendered(grid: &[u8], cols: usize, rows: usize) -> String {
    let mut buf = String::from("old frame");
    render(&mut buf, grid, cols, rows, &palette());
    buf
}

#[test]
fn colours_are_sent_where_they_change() {
    assert_eq!(
        rendered(&[0, 0, 5, 5, 5, 36], 3, 2),
        "\x1b[H\x1b[49m  \x1b[48;2;5;100;250m \n  \x1b[48;2;36;100;219m \n"
    );
}

#[test]
fn the_first_cell_always_sets_its_colour() {
    assert_eq!(rendered(&[0], 1, 1), "\x1b[H\x1b[49m \n");
    assert_eq!(rendered(&[9], 1, 1), "\x1b[H\x1b[48;2;9;100;246m \n");
}

#[test]
fn screens_without_cells() {
    assert_eq!(rendered(&[], 0, 2), "\x1b[H\n\n");
    assert_eq!(rendered(&[], 3, 0), "\x1b[H");
}

#[test]
fn heats_with_one_colour_share_it() {
    let mut buf = String::new();
    render(&mut buf, &[1, 2, 1], 3, 1, &[(0, 0, 0), (7, 7, 7), (7, 7, 7)]);
    assert_eq!(buf, "\x1b[H\x1b[48;2;7;7;7m   \n");
}

#[test]
fn a_frame_shows_every_cell() {
    let grid: Vec<u8> = vec![0, 1, 1, 2, 2, 0, 0, 36, 36, 36, 4, 4];
    let text = rendered(&grid, 4, 3);
    let mut cells = Vec::new();
    let mut ink = String::new();
    let mut rest = text.strip_prefix("\x1b[H").unwrap();
    while let Some(c) = rest.chars().next() {
        rest = &rest[1..];
        if c == '\x1b' {
            let end = rest.find('m').unwrap();
            ink = rest[1..end].to_string();
            rest = &rest[end + 1..];
        } else if c == ' ' {
            cells.push(ink.clone());
        } else {
            assert_eq!(c, '\n');
            assert_eq!(cells.len() % 4, 0);
        }
    }
    let expected: Vec<String> = grid
        .iter()
        .map(|&heat| {
            if heat == 0 {
                "49".to_string()
            } else {
                format!("48;2;{};100;{}", heat, 255 - heat)
            }
        })
        .collect();
    assert_eq!(cells, expected);
}
