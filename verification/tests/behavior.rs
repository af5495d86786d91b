use pixel_tree::GRID_HEIGHT;
use pixel_tree::GRID_SIZE;
use pixel_tree::GRID_WIDTH;
use pixel_tree::codec::decode_grid;
use pixel_tree::codec::encode_grid;
use pixel_tree::color::is_valid_hex_color;
use pixel_tree::mask::generate_tree_mask;
use pixel_tree::messages::ClientMessage;
use pixel_tree::messages::ItemKind;
use pixel_tree::messages::ServerMessage;
use pixel_tree::pixel::Pixel;
use pixel_tree::session::handle_client_message;
use pixel_tree::session::register_session;
use pixel_tree::session::unregister_session;
use pixel_tree::state::AppState;
use pixel_tree::state::PaintRejection;
use pixel_tree::text::x_percent_for;

/// An index well inside the tree body: row 100, center column.
const BODY_INDEX: usize = 100 * 120 + 60;

#[test]
fn grid_dimensions() {
    assert_eq!(GRID_WIDTH, 120);
    assert_eq!(GRID_HEIGHT, 180);
    assert_eq!(GRID_SIZE, 21600);
}

#[test]
fn mask_is_deterministic() {
    let a = generate_tree_mask();
    let b = generate_tree_mask();
    assert_eq!(a, b);
    assert_eq!(a.len(), GRID_SIZE);
}

#[test]
fn mask_shape() {
    let mask = generate_tree_mask();
    // corner: outside everything
    assert!(!mask[0]);
    // tree body at row 100, center
    assert!(mask[BODY_INDEX]);
    // trunk at row 160, center
    assert!(mask[160 * 120 + 60]);
    // star center at row 9
    assert!(mask[9 * 120 + 60]);
    // just outside the body's half-width at row 100: base 30 + widening 2
    assert!(mask[100 * 120 + 60 + 32]);
    assert!(!mask[100 * 120 + 60 + 33]);
}

#[test]
fn valid_colors() {
    assert!(is_valid_hex_color("#1a1a2e"));
    assert!(is_valid_hex_color("#FF00aa"));
    assert!(is_valid_hex_color("#000000"));
    assert!(!is_valid_hex_color("ff0000"));
    assert!(!is_valid_hex_color("#ff000"));
    assert!(!is_valid_hex_color("#ff00000"));
    assert!(!is_valid_hex_color("#gg0000"));
    assert!(!is_valid_hex_color(""));
    assert!(!is_valid_hex_color("#ff00é0"));
}

#[test]
fn paint_accepted_updates_one_cell() {
    let mut state = AppState::new();
    let before_other = state.grid[0].color.clone();
    let r = state.apply_paint(BODY_INDEX, "#ff0000", "user1", 42);
    match r {
        Ok(ServerMessage::UpdatePixel { index, color }) => {
            assert_eq!(index, BODY_INDEX);
            assert_eq!(color, "#ff0000");
        }
        _ => panic!("expected an accepted paint"),
    }
    assert_eq!(state.grid[BODY_INDEX].color, "#ff0000");
    assert_eq!(state.grid[BODY_INDEX].last_updated, 42);
    assert_eq!(state.grid[BODY_INDEX].modifier_id, "user1");
    assert_eq!(state.grid[0].color, before_other);
    assert_eq!(state.grid[BODY_INDEX + 1].color, "#1a1a2e");
}

#[test]
fn paint_out_of_range_boundary() {
    let mut state = AppState::new();
    let r = state.apply_paint(GRID_SIZE, "#ff0000", "user1", 1);
    assert_eq!(r.err(), Some(PaintRejection::IndexOutOfRange));
    assert!(state.grid.iter().all(|p| p.color == "#1a1a2e"));
}

#[test]
fn paint_masked_out_is_noop() {
    let mut state = AppState::new();
    let r = state.apply_paint(0, "#ff0000", "user1", 1);
    assert_eq!(r.err(), Some(PaintRejection::NotPaintable));
    // color validity does not matter: the color check comes first
    let r2 = state.apply_paint(0, "nonsense", "user1", 1);
    assert_eq!(r2.err(), Some(PaintRejection::InvalidColor));
    assert!(state.grid.iter().all(|p| p.color == "#1a1a2e"));
    assert!(state.grid.iter().all(|p| p.last_updated == 0));
}

#[test]
fn paint_malformed_color_is_noop() {
    let mut state = AppState::new();
    for bad in ["ff0000", "#ff000", "#ff00000", "#gg0000", ""] {
        let r = state.apply_paint(BODY_INDEX, bad, "user1", 1);
        assert_eq!(r.err(), Some(PaintRejection::InvalidColor));
    }
    assert!(state.grid.iter().all(|p| p.color == "#1a1a2e"));
}

#[test]
fn presence_clamps_and_balances() {
    let mut state = AppState::new();
    assert_eq!(state.adjust_presence(-1), 0);
    for i in 1..=5u64 {
        assert_eq!(state.adjust_presence(1), i);
    }
    for i in (0..5u64).rev() {
        assert_eq!(state.adjust_presence(-1), i);
    }
    assert_eq!(state.online_count, 0);
}

#[test]
fn snapshot_round_trips() {
    let mut state = AppState::new();
    state.apply_paint(BODY_INDEX, "#ff0000", "alice", 1111).unwrap();
    state.apply_paint(BODY_INDEX + 1, "#00ff00", "bob", 2222).unwrap();
    let (cells, _) = state.snapshot();
    let bytes = encode_grid(&cells);
    let decoded = decode_grid(&bytes).expect("snapshot bytes decode");
    assert_eq!(decoded.len(), cells.len());
    for (a, b) in cells.iter().zip(decoded.iter()) {
        assert_eq!(a.color, b.color);
        assert_eq!(a.last_updated, b.last_updated);
        assert_eq!(a.modifier_id, b.modifier_id);
    }
}

#[test]
fn decode_rejects_malformation() {
    assert!(decode_grid(&Vec::new()).is_none());
    assert!(decode_grid(&vec![1, 2, 3]).is_none());
    // claims one cell, holds none
    let mut short = 1u64.to_le_bytes().to_vec();
    assert!(decode_grid(&short).is_none());
    // trailing byte after a well-formed snapshot
    let cells: Vec<Pixel> = vec![Pixel::default()];
    let mut bytes = encode_grid(&cells);
    assert!(decode_grid(&bytes).is_some());
    bytes.push(0);
    assert!(decode_grid(&bytes).is_none());
    short.push(0);
    assert!(decode_grid(&short).is_none());
}

#[test]
fn backup_restores_full_grid_only() {
    let mut state = AppState::new();
    state.apply_paint(BODY_INDEX, "#abcdef", "carol", 99).unwrap();
    let (cells, _) = state.snapshot();
    let bytes = encode_grid(&cells);
    let restored = AppState::from_backup_bytes(&bytes);
    assert_eq!(restored.grid[BODY_INDEX].color, "#abcdef");
    assert_eq!(restored.grid[BODY_INDEX].modifier_id, "carol");
    assert_eq!(restored.online_count, 0);

    // wrong length: a two-cell snapshot is rejected, default canvas kept
    let two: Vec<Pixel> = vec![Pixel::default(), Pixel::default()];
    let small = encode_grid(&two);
    let fallback = AppState::from_backup_bytes(&small);
    assert!(fallback.grid.iter().all(|p| p.color == "#1a1a2e"));

    // garbage: default canvas kept
    let junk = AppState::from_backup_bytes(&vec![7; 100]);
    assert!(junk.grid.iter().all(|p| p.color == "#1a1a2e"));
}

#[test]
fn blank_message_produces_no_event() {
    let mut state = AppState::new();
    let r = handle_client_message(
        ClientMessage::SendMessage { text: "  ".to_string() },
        &mut state,
        "user1",
        5,
    );
    assert!(r.is_none());
}

#[test]
fn long_message_truncated_to_fifty_chars() {
    let mut state = AppState::new();
    let text: String = "x".repeat(80);
    let r = handle_client_message(
        ClientMessage::SendMessage { text: text.clone() },
        &mut state,
        "user1",
        5,
    );
    match r {
        Some(ServerMessage::FallingItem { item_type, content, x_percent }) => {
            assert_eq!(item_type, ItemKind::Text);
            assert_eq!(content.chars().count(), 50);
            assert_eq!(content, text.chars().take(50).collect::<String>());
            assert!(x_percent < 100);
        }
        _ => panic!("expected a falling text item"),
    }
}

#[test]
fn image_payload_needs_data_uri_prefix() {
    let mut state = AppState::new();
    let r = handle_client_message(
        ClientMessage::SendImage { data: "notanimage".to_string() },
        &mut state,
        "user1",
        5,
    );
    assert!(r.is_none());
    let r2 = handle_client_message(
        ClientMessage::SendImage { data: "data:image/png;base64,AAAA".to_string() },
        &mut state,
        "user1",
        5,
    );
    match r2 {
        Some(ServerMessage::FallingItem { item_type, content, .. }) => {
            assert_eq!(item_type, ItemKind::Image);
            assert_eq!(content, "data:image/png;base64,AAAA");
        }
        _ => panic!("expected a falling image item"),
    }
}

#[test]
fn paint_message_yields_update_event() {
    let mut state = AppState::new();
    let r = handle_client_message(
        ClientMessage::Paint { index: BODY_INDEX, color: "#123abc".to_string() },
        &mut state,
        "dave",
        77,
    );
    match r {
        Some(ServerMessage::UpdatePixel { index, color }) => {
            assert_eq!(index, BODY_INDEX);
            assert_eq!(color, "#123abc");
        }
        _ => panic!("expected an update event"),
    }
    assert_eq!(state.grid[BODY_INDEX].modifier_id, "dave");
    // boundary index one past the end yields nothing
    let r2 = handle_client_message(
        ClientMessage::Paint { index: GRID_SIZE, color: "#123abc".to_string() },
        &mut state,
        "dave",
        77,
    );
    assert!(r2.is_none());
}

#[test]
fn initial_state_has_full_grid_and_mask() {
    let mut state = AppState::new();
    state.adjust_presence(3);
    match state.initial_state_message() {
        ServerMessage::InitialState { grid, online_count, tree_mask } => {
            assert_eq!(grid.len(), GRID_SIZE);
            assert_eq!(tree_mask.len(), GRID_SIZE);
            assert_eq!(online_count, 3);
            assert!(grid.iter().all(|p| p.color == "#1a1a2e"));
        }
        _ => panic!("expected the initial-state event"),
    }
}

#[test]
fn x_position_is_deterministic_and_bounded() {
    // byte sum of "ab" is 195; (195 % 100 + 7 % 100) % 100 == 2
    assert_eq!(x_percent_for("ab", 7), 2);
    assert_eq!(x_percent_for("ab", 7), x_percent_for("ab", 7));
    for now in [0u64, 1, 99, 100, u64::MAX] {
        assert!(x_percent_for("some-user", now) < 100);
    }
}

#[test]
fn sessions_announce_presence_through_hub() {
    let mut state = AppState::new();
    let (tx, mut rx) = tokio::sync::broadcast::channel::<ServerMessage>(16);
    let count = register_session(&mut state, &tx);
    assert_eq!(count, 1);
    match rx.try_recv() {
        Ok(ServerMessage::UpdateCount { count }) => assert_eq!(count, 1),
        _ => panic!("expected a presence event"),
    }
    let count = unregister_session(&mut state, &tx);
    assert_eq!(count, 0);
    match rx.try_recv() {
        Ok(ServerMessage::UpdateCount { count }) => assert_eq!(count, 0),
        _ => panic!("expected a presence event"),
    }
}

#[test]
fn unicode_text_truncated_by_characters() {
    let mut state = AppState::new();
    let text: String = "é".repeat(60);
    let r = handle_client_message(
        ClientMessage::SendMessage { text },
        &mut state,
        "user1",
        5,
    );
    match r {
        Some(ServerMessage::FallingItem { content, .. }) => {
            assert_eq!(content.chars().count(), 50);
        }
        _ => panic!("expected a falling text item"),
    }
}
