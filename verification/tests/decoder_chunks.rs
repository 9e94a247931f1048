use climax::bang_core::event::{Event, Key, KeyEvent, Modifiers};
use climax::terminal::decoder::Decoder;

fn modified(key: Key, modifiers: Modifiers) -> Event {
    Event::Key(KeyEvent::with_modifiers(key, modifiers))
}

fn decode_in_chunks(bytes: &[u8], chunk_size: usize) -> Vec<Event> {
    let mut decoder = Decoder::new();
    let mut events = Vec::new();
    for chunk in bytes.chunks(chunk_size) {
        events.extend(decoder.feed(chunk));
    }
    events.extend(decoder.flush());
    events
}

#[test]
fn alt_characters_and_named_controls_decode_without_losing_utf8() {
    for (bytes, expected) in [
        (b"\x1bq".as_slice(), modified(Key::Char('q'), Modifiers::ALT())),
        ("\u{1b}界".as_bytes(), modified(Key::Char('界'), Modifiers::ALT())),
        (b"\x1b\r".as_slice(), modified(Key::Enter, Modifiers::ALT())),
        (b"\x1b\x03".as_slice(), modified(Key::Char('c'), Modifiers::ALT() | Modifiers::CONTROL())),
    ] {
        for chunk_size in 1..=bytes.len() {
            assert_eq!(decode_in_chunks(bytes, chunk_size), vec![expected.clone()]);
        }
    }
}

#[test]
fn xterm_modifiers_cover_arrows_and_navigation_keys() {
    let cases = [
        (b"\x1b[1;2A".as_slice(), Key::Up, Modifiers::SHIFT()),
        (b"\x1b[1;3B".as_slice(), Key::Down, Modifiers::ALT()),
        (b"\x1b[1;5C".as_slice(), Key::Right, Modifiers::CONTROL()),
        (b"\x1b[1;8D".as_slice(), Key::Left, Modifiers::SHIFT() | Modifiers::ALT() | Modifiers::CONTROL()),
        (b"\x1b[1;6H".as_slice(), Key::Home, Modifiers::SHIFT() | Modifiers::CONTROL()),
        (b"\x1b[3;7~".as_slice(), Key::Delete, Modifiers::ALT() | Modifiers::CONTROL()),
    ];
    for (bytes, key, modifiers) in cases {
        for chunk_size in 1..=bytes.len() {
            assert_eq!(
                decode_in_chunks(bytes, chunk_size),
                vec![modified(key.clone(), modifiers)],
                "bytes={bytes:?}, chunk_size={chunk_size}",
            );
        }
    }
}

#[test]
fn bracketed_paste_markers_survive_every_chunk_boundary() {
    let bytes = b"\x1b[200~hello \x1b[ world\x1b[201~";
    for chunk_size in 1..=bytes.len() {
        assert_eq!(
            decode_in_chunks(bytes, chunk_size),
            vec![Event::Paste("hello \x1b[ world".into())],
            "chunk_size={chunk_size}",
        );
    }
}

#[test]
fn escape_deadline_flush_preserves_other_partial_input() {
    let mut decoder = Decoder::new();
    assert!(decoder.feed(b"\x1b").is_empty());
    assert!(decoder.escape_pending());
    assert_eq!(decoder.flush_escape(), Some(Event::key(Key::Esc)));
    assert!(!decoder.escape_pending());

    assert!(decoder.feed(&[0xE7]).is_empty());
    assert_eq!(decoder.flush_escape(), None);
    assert_eq!(decoder.feed(&[0x95, 0x8C]), vec![Event::char('界')]);
}
