use tattoy_twitch::bitmap::{decode_emote, resize_emote};
use tattoy_twitch::compositor::place_emote;
use tattoy_twitch::plugin::FRAME_INTERVAL;
use tattoy_twitch::registry::EMOTE_LIFETIME;
use tattoy_twitch::{
    ActiveEmote, Bitmap, BotMessage, Cell, EmoteCatalog, EmoteError, EmoteRegistry, HostMessage,
    Pixel, Plugin, TerminalSnapshot,
};

const SECOND: u64 = 1_000_000;

fn cells_of_rows(rows: &[&str]) -> Vec<Cell> {
    let mut cells = Vec::new();
    for (row, text) in rows.iter().enumerate() {
        for (column, character) in text.chars().enumerate() {
            cells.push(Cell { character, coordinates: (column as u32, row as u32) });
        }
    }
    cells
}

fn snapshot(columns: u16, rows: &[&str]) -> TerminalSnapshot {
    let mut tty = TerminalSnapshot::new();
    tty.apply_update((columns, rows.len() as u16), cells_of_rows(rows), (0, 0));
    tty
}

fn solid(width: u32, height: u32, rgba: [u8; 4]) -> Bitmap {
    let mut bytes = Vec::new();
    for _ in 0..(width * height) {
        bytes.extend_from_slice(&rgba);
    }
    Bitmap::from_rgba(width, height, bytes).unwrap()
}

fn png_bytes(width: u32, height: u32, rgba: [u8; 4]) -> Vec<u8> {
    let image = image::RgbaImage::from_pixel(width, height, image::Rgba(rgba));
    let mut out = std::io::Cursor::new(Vec::new());
    image::DynamicImage::ImageRgba8(image)
        .write_to(&mut out, image::ImageFormat::Png)
        .unwrap();
    out.into_inner()
}

fn emote(pattern: &str, created_at: u64, image: Bitmap) -> ActiveEmote {
    ActiveEmote { pattern: pattern.to_string(), created_at, image }
}

fn catalog() -> EmoteCatalog {
    let mut catalog = EmoteCatalog::new();
    catalog.insert("LUL".to_string(), "425618".to_string());
    catalog.insert("Kappa".to_string(), "25".to_string());
    catalog
}

#[test]
fn match_in_hello_world() {
    let tty = snapshot(11, &["hello world"]);
    assert_eq!(tty.find_text_coordinates("world"), Some((6, 0)));
}

#[test]
fn first_match_wins_top_to_bottom() {
    let tty = snapshot(8, &["nothing", "ab ab", "ab"]);
    assert_eq!(tty.find_text_coordinates("ab"), Some((0, 1)));
    assert_eq!(tty.find_text_coordinates("b a"), Some((1, 1)));
}

#[test]
fn missing_cells_read_as_blanks() {
    let mut tty = TerminalSnapshot::new();
    let cells = vec![
        Cell { character: 'a', coordinates: (0, 0) },
        Cell { character: 'b', coordinates: (3, 0) },
    ];
    tty.apply_update((5, 1), cells, (0, 0));
    assert_eq!(tty.lookup(1, 0), ' ');
    assert_eq!(tty.line(0), vec!['a', ' ', ' ', 'b', ' ']);
    assert_eq!(tty.find_text_coordinates("a  b"), Some((0, 0)));
    assert_eq!(tty.find_text_coordinates("ab"), None);
}

#[test]
fn match_column_counts_characters() {
    let tty = snapshot(10, &["héllo wö"]);
    assert_eq!(tty.find_text_coordinates("wö"), Some((6, 0)));
}

#[test]
fn absent_pattern_draws_nothing() {
    let tty = snapshot(11, &["hello world", "second row"]);
    let mut output = vec![Pixel { coordinates: (1, 1), color: (1, 2, 3) }];
    render_one(&tty, &emote("absent", 0, solid(2, 2, [255, 0, 0, 255])), &mut output);
    assert_eq!(output, vec![Pixel { coordinates: (1, 1), color: (1, 2, 3) }]);
}

fn render_one(tty: &TerminalSnapshot, emote: &ActiveEmote, output: &mut Vec<Pixel>) {
    tattoy_twitch::compositor::render_emote(tty, emote, output);
}

#[test]
fn pattern_wider_than_screen_draws_nothing() {
    let tty = snapshot(3, &["abc"]);
    let mut output = Vec::new();
    render_one(&tty, &emote("abcd", 0, solid(1, 1, [9, 9, 9, 255])), &mut output);
    assert!(output.is_empty());
}

#[test]
fn resize_gives_requested_size() {
    let image = solid(2, 2, [10, 20, 30, 255]);
    let resized = resize_emote(&image, 5, 3);
    assert_eq!((resized.width, resized.height), (5, 3));
    assert_eq!(resized.rgba.len(), 5 * 3 * 4);
    let shrunk = resize_emote(&solid(40, 40, [0, 0, 0, 255]), 3, 7);
    assert_eq!((shrunk.width, shrunk.height), (3, 7));
    assert_eq!(shrunk.rgba.len(), 3 * 7 * 4);
}

#[test]
fn resize_keeps_a_solid_colour() {
    let resized = resize_emote(&solid(4, 4, [200, 100, 50, 255]), 3, 2);
    for pixel in resized.rgba.chunks(4) {
        assert_eq!(pixel, &[200, 100, 50, 255]);
    }
}

#[test]
fn emote_is_centred_on_its_row() {
    let tty = snapshot(10, &["", "", "    abc", ""]);
    let mut output = Vec::new();
    render_one(&tty, &emote("abc", 0, solid(2, 2, [255, 0, 0, 255])), &mut output);
    // Three wide, four high; the top is at twice the row less half the height.
    assert_eq!(output.len(), 12);
    assert_eq!(output[0].coordinates, (4, 2));
    assert_eq!(output[1].coordinates, (5, 2));
    assert_eq!(output[3].coordinates, (4, 3));
    assert_eq!(output[11].coordinates, (6, 5));
    for pixel in &output {
        assert_eq!(pixel.color, (255, 0, 0));
    }
}

#[test]
fn rows_above_the_screen_are_clipped() {
    let tty = snapshot(10, &["ab", "", "", ""]);
    let mut output = Vec::new();
    render_one(&tty, &emote("ab", 0, solid(1, 1, [0, 0, 255, 255])), &mut output);
    // Four rows high, centred on row zero: the top two rows fall above the grid.
    assert_eq!(output.len(), 4);
    assert_eq!(output[0].coordinates, (0, 0));
    assert_eq!(output[3].coordinates, (1, 1));
}

#[test]
fn update_twice_reads_the_same() {
    let cells = cells_of_rows(&["abc", "de"]);
    let mut tty = TerminalSnapshot::new();
    tty.apply_update((4, 2), cells.clone(), (1, 1));
    let first: Vec<char> = (0..8).map(|i| tty.lookup(i % 4, i / 4)).collect();
    tty.apply_update((4, 2), cells, (1, 1));
    let second: Vec<char> = (0..8).map(|i| tty.lookup(i % 4, i / 4)).collect();
    assert_eq!(first, second);
    assert_eq!(first, vec!['a', 'b', 'c', ' ', 'd', 'e', ' ', ' ']);
    assert_eq!(tty.cursor, (1, 1));
}

#[test]
fn empty_terminal_renders_no_frame() {
    let mut plugin = Plugin::new(catalog(), 0);
    plugin.active_emotes.insert("x".to_string(), solid(1, 1, [1, 1, 1, 255]), 0);
    assert_eq!(plugin.render(SECOND), None);
    plugin.handle_tattoy_message(HostMessage::TerminalUpdate {
        size: (0, 3),
        cells: Vec::new(),
        cursor: (0, 0),
    });
    assert_eq!(plugin.render(SECOND), None);
}

#[test]
fn frame_draws_each_emote_in_turn() {
    let mut plugin = Plugin::new(catalog(), 0);
    plugin.handle_tattoy_message(HostMessage::TerminalUpdate {
        size: (6, 2),
        cells: cells_of_rows(&["", "ab cd"]),
        cursor: (0, 0),
    });
    plugin.active_emotes.insert("cd".to_string(), solid(1, 1, [0, 255, 0, 255]), 0);
    plugin.active_emotes.insert("zz".to_string(), solid(1, 1, [0, 0, 255, 255]), 0);
    plugin.active_emotes.insert("ab".to_string(), solid(1, 1, [255, 0, 0, 255]), 0);
    let frame = plugin.render(SECOND).unwrap();
    // Each emote is two wide and two high, with its top on pixel row one.
    assert_eq!(frame.len(), 8);
    assert_eq!(frame[0], Pixel { coordinates: (3, 1), color: (0, 255, 0) });
    assert_eq!(frame[4], Pixel { coordinates: (0, 1), color: (255, 0, 0) });
    assert_eq!(frame[7], Pixel { coordinates: (1, 2), color: (255, 0, 0) });
}

#[test]
fn resize_and_unknown_messages_change_nothing() {
    let mut plugin = Plugin::new(catalog(), 0);
    plugin.handle_tattoy_message(HostMessage::TerminalUpdate {
        size: (5, 1),
        cells: cells_of_rows(&["hi"]),
        cursor: (2, 0),
    });
    plugin.handle_tattoy_message(HostMessage::TerminalResize { width: 80, height: 24 });
    plugin.handle_tattoy_message(HostMessage::Unhandled);
    assert_eq!(plugin.tty.size, (5, 1));
    assert_eq!(plugin.tty.cursor, (2, 0));
    assert_eq!(plugin.tty.lookup(1, 0), 'i');
}

#[test]
fn unknown_emote_code_adds_nothing() {
    let plugin = Plugin::new(catalog(), 0);
    let message = BotMessage {
        username: "tom".to_string(),
        regexish: "nightly".to_string(),
        emote: "NoSuchEmote".to_string(),
    };
    assert_eq!(plugin.handle_bot_message(&message), None);
    assert_eq!(plugin.active_emotes.len(), 0);
}

#[test]
fn known_emote_code_resolves() {
    let plugin = Plugin::new(catalog(), 0);
    let message = BotMessage {
        username: "tom".to_string(),
        regexish: "nightly".to_string(),
        emote: "LUL".to_string(),
    };
    assert_eq!(plugin.handle_bot_message(&message), Some("425618".to_string()));
}

#[test]
fn later_catalog_entry_replaces_earlier() {
    let mut catalog = catalog();
    catalog.insert("LUL".to_string(), "999".to_string());
    assert_eq!(catalog.resolve(&"LUL".to_string()), Some("999".to_string()));
    assert_eq!(catalog.resolve(&"Kappa".to_string()), Some("25".to_string()));
    assert_eq!(catalog.resolve(&"lul".to_string()), None);
}

#[test]
fn emote_expires_after_ten_seconds() {
    let now = 5 * SECOND;
    let mut registry = EmoteRegistry::new();
    registry.insert("LUL".to_string(), solid(1, 1, [0, 0, 0, 255]), now);
    registry.expire(now + 5 * SECOND);
    assert_eq!(registry.len(), 1);
    registry.expire(now + 11 * SECOND);
    assert_eq!(registry.len(), 0);
}

#[test]
fn expiry_keeps_fresh_emotes_in_order() {
    let mut registry = EmoteRegistry::new();
    registry.insert("a".to_string(), solid(1, 1, [0, 0, 0, 255]), 0);
    registry.insert("b".to_string(), solid(1, 1, [0, 0, 0, 255]), 2 * SECOND);
    registry.insert("c".to_string(), solid(1, 1, [0, 0, 0, 255]), 4 * SECOND);
    registry.insert("d".to_string(), solid(1, 1, [0, 0, 0, 255]), 6 * SECOND);
    registry.expire(2 * SECOND + EMOTE_LIFETIME);
    let left: Vec<&str> = registry.emotes.iter().map(|e| e.pattern.as_str()).collect();
    assert_eq!(left, vec!["c", "d"]);
}

#[test]
fn frame_tick_expires_emotes_first() {
    let mut plugin = Plugin::new(catalog(), 0);
    plugin.active_emotes.insert("old".to_string(), solid(1, 1, [0, 0, 0, 255]), 0);
    plugin.active_emotes.insert("new".to_string(), solid(1, 1, [0, 0, 0, 255]), 8 * SECOND);
    assert_eq!(plugin.render(12 * SECOND), None);
    assert_eq!(plugin.active_emotes.len(), 1);
    assert_eq!(plugin.active_emotes.emotes[0].pattern, "new");
    assert_eq!(plugin.last_frame_tick, 12 * SECOND);
}

#[test]
fn frame_cadence_over_three_seconds() {
    // Composites of differing length within the frame budget.
    let composite_times = [0u64, 1_000, 20_000, 33_000, 5_000, 12_345];
    let mut plugin = Plugin::new(catalog(), 0);
    plugin.handle_tattoy_message(HostMessage::TerminalUpdate {
        size: (4, 1),
        cells: cells_of_rows(&["hey"]),
        cursor: (0, 0),
    });
    let mut now: u64 = 0;
    let mut frames = 0u64;
    let mut tick = 0usize;
    loop {
        now += plugin.time_until_next_frame(now);
        if now > 3 * SECOND {
            break;
        }
        if plugin.render(now).is_some() {
            frames += 1;
        }
        now += composite_times[tick % composite_times.len()];
        tick += 1;
    }
    assert!((89..=91).contains(&frames), "{frames} frames");
}

#[test]
fn frame_wait_values() {
    let plugin = Plugin::new(EmoteCatalog::new(), 1_000);
    assert_eq!(plugin.time_until_next_frame(1_000), FRAME_INTERVAL);
    assert_eq!(plugin.time_until_next_frame(11_000), FRAME_INTERVAL - 10_000);
    assert_eq!(plugin.time_until_next_frame(1_000 + FRAME_INTERVAL), 0);
    assert_eq!(plugin.time_until_next_frame(900_000), 0);
    assert_eq!(plugin.time_until_next_frame(500), FRAME_INTERVAL);
    assert_eq!(FRAME_INTERVAL, 1_000_000 / 30);
}

#[test]
fn decoded_emote_is_added() {
    let mut plugin = Plugin::new(catalog(), 0);
    let payload = png_bytes(3, 2, [1, 2, 3, 255]);
    assert_eq!(plugin.add_active_emote("LUL".to_string(), &payload, 7), Ok(()));
    assert_eq!(plugin.active_emotes.len(), 1);
    let added = &plugin.active_emotes.emotes[0];
    assert_eq!(added.created_at, 7);
    assert_eq!((added.image.width, added.image.height), (3, 2));
    assert_eq!(&added.image.rgba[0..4], &[1, 2, 3, 255]);
}

#[test]
fn malformed_payload_is_a_decode_error() {
    let mut plugin = Plugin::new(catalog(), 0);
    assert_eq!(plugin.add_active_emote("x".to_string(), b"not a png", 0), Err(EmoteError::Decode));
    assert_eq!(plugin.active_emotes.len(), 0);
    assert_eq!(decode_emote(&[]), Err(EmoteError::Decode));
}

#[test]
fn bitmap_needs_four_bytes_per_pixel() {
    assert!(Bitmap::from_rgba(2, 2, vec![0; 16]).is_some());
    assert!(Bitmap::from_rgba(2, 2, vec![0; 15]).is_none());
    assert!(Bitmap::from_rgba(0, 7, Vec::new()).is_some());
}

#[test]
fn placement_keeps_each_pixel_colour() {
    // Two wide, two high: red, green / blue, white.
    let rgba = vec![255, 0, 0, 255, 0, 255, 0, 255, 0, 0, 255, 255, 255, 255, 255, 255];
    let image = Bitmap::from_rgba(2, 2, rgba).unwrap();
    let mut output = Vec::new();
    place_emote(&image, 3, 1, &mut output);
    assert_eq!(
        output,
        vec![
            Pixel { coordinates: (3, 1), color: (255, 0, 0) },
            Pixel { coordinates: (4, 1), color: (0, 255, 0) },
            Pixel { coordinates: (3, 2), color: (0, 0, 255) },
            Pixel { coordinates: (4, 2), color: (255, 255, 255) },
        ]
    );
    let mut clipped = Vec::new();
    place_emote(&solid(1, 3, [7, 8, 9, 255]), 0, 0, &mut clipped);
    assert_eq!(clipped, vec![
        Pixel { coordinates: (0, 0), color: (7, 8, 9) },
        Pixel { coordinates: (0, 1), color: (7, 8, 9) },
    ]);
}
