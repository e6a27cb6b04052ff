use remacs_chars::codec::{
    char_read_p, max_char, multibyte_char_to_unibyte, unibyte_char_to_multibyte, MAX_CHAR,
};
use remacs_chars::error::CharError;
use remacs_chars::gap_buffer::{dec_pos, dec_pos_checked, GapBuffer};
use remacs_chars::object::{char_or_string_p, characterp, Value};

#[test]
fn continuation_bytes_do_not_start_characters() {
    for b in 0u16..=255 {
        let b = b as u8;
        assert_eq!(char_read_p(b), !(0x80..=0xBF).contains(&b), "byte {:#x}", b);
    }
    assert!(char_read_p(b'a'));
    assert!(char_read_p(0xC3));
    assert!(!char_read_p(0xA9));
}

#[test]
fn ascii_widens_to_itself() {
    for c in 0u32..0x80 {
        assert_eq!(unibyte_char_to_multibyte(c), Ok(c));
    }
}

#[test]
fn upper_half_bytes_widen_to_latin1() {
    assert_eq!(unibyte_char_to_multibyte(0xE9), Ok(0xE9));
    assert_eq!(unibyte_char_to_multibyte(0xFF), Ok(0xFF));
}

#[test]
fn widening_refuses_non_bytes() {
    assert_eq!(unibyte_char_to_multibyte(256), Err(CharError::InvalidArgument(256)));
    assert_eq!(unibyte_char_to_multibyte(0x3FFF80), Err(CharError::InvalidArgument(0x3FFF80)));
    assert_eq!(unibyte_char_to_multibyte(u32::MAX), Err(CharError::InvalidArgument(u32::MAX)));
}

#[test]
fn raw_byte_codepoints_narrow_to_their_byte() {
    for v in 0x80u32..=0xFF {
        let r = 0x3FFF00 + v;
        assert_eq!(multibyte_char_to_unibyte(r), Ok(Some(v as u8)));
    }
    assert_eq!(multibyte_char_to_unibyte(0x3FFF80), Ok(Some(0x80)));
    assert_eq!(multibyte_char_to_unibyte(MAX_CHAR), Ok(Some(0xFF)));
}

#[test]
fn codepoints_below_256_narrow_to_themselves() {
    for c in 0u32..256 {
        assert_eq!(multibyte_char_to_unibyte(c), Ok(Some(c as u8)));
    }
}

#[test]
fn other_characters_have_no_byte() {
    assert_eq!(multibyte_char_to_unibyte(256), Ok(None));
    assert_eq!(multibyte_char_to_unibyte(0x20AC), Ok(None));
    assert_eq!(multibyte_char_to_unibyte(0x3FFF7F), Ok(None));
}

#[test]
fn narrowing_refuses_non_characters() {
    assert_eq!(
        multibyte_char_to_unibyte(MAX_CHAR + 1),
        Err(CharError::NotACharacter(MAX_CHAR + 1))
    );
    assert_eq!(multibyte_char_to_unibyte(u32::MAX), Err(CharError::NotACharacter(u32::MAX)));
}

#[test]
fn widen_then_narrow_gives_the_byte_back() {
    for b in 0u32..256 {
        let c = unibyte_char_to_multibyte(b).unwrap();
        assert_eq!(multibyte_char_to_unibyte(c), Ok(Some(b as u8)));
    }
}

#[test]
fn max_char_bounds_characters() {
    assert_eq!(max_char(), 0x3FFFFF);
    assert_eq!(max_char(), max_char());
    assert_eq!(max_char(), MAX_CHAR);
    assert!(characterp(&Value::Integer(max_char() as i64)));
    assert!(!characterp(&Value::Integer(max_char() as i64 + 1)));
}

#[test]
fn character_predicates() {
    assert!(characterp(&Value::Integer(0)));
    assert!(characterp(&Value::Integer(0xE9)));
    assert!(!characterp(&Value::Integer(-1)));
    assert!(!characterp(&Value::Text("a".to_string())));
    assert!(!characterp(&Value::Other));
    assert!(char_or_string_p(&Value::Integer(65)));
    assert!(char_or_string_p(&Value::Text(String::new())));
    assert!(!char_or_string_p(&Value::Integer(-5)));
    assert!(!char_or_string_p(&Value::Integer(0x400000)));
    assert!(!char_or_string_p(&Value::Other));
}

fn cafe() -> Vec<u8> {
    vec![0x63, 0x61, 0x66, 0xC3, 0xA9]
}

#[test]
fn dec_pos_skips_continuation_byte_after_gap() {
    let b = GapBuffer::new(1, &cafe(), 4, 20).unwrap();
    assert_eq!(b.fetch_byte(4), 0xC3);
    assert_eq!(b.fetch_byte(5), 0xA9);
    assert_eq!(dec_pos(&b, 6), 4);
    assert_eq!(dec_pos(&b, 5), 4);
    assert_eq!(dec_pos(&b, 4), 3);
}

#[test]
fn dec_pos_crosses_gap_inside_a_sequence() {
    let b = GapBuffer::new(1, &cafe(), 5, 7).unwrap();
    assert_eq!(b.fetch_byte(4), 0xC3);
    assert_eq!(b.fetch_byte(5), 0xA9);
    assert_eq!(dec_pos(&b, 6), 4);
    for gpt in 1..=6 {
        let b = GapBuffer::new(1, &cafe(), gpt, 3).unwrap();
        assert_eq!(dec_pos(&b, 6), 4, "gap at {}", gpt);
    }
}

#[test]
fn dec_pos_from_just_past_beg_lands_on_beg() {
    let b = GapBuffer::new(1, &cafe(), 3, 2).unwrap();
    assert_eq!(dec_pos(&b, 2), 1);
    let mut pos = b.end_byte();
    let mut steps = 0;
    while pos > b.beg_byte() {
        pos = dec_pos(&b, pos);
        steps += 1;
    }
    assert_eq!(pos, 1);
    assert_eq!(steps, 4);
}

#[test]
fn dec_pos_stops_at_beg_on_malformed_text() {
    let b = GapBuffer::new(10, &vec![0x80, 0x81, 0xBF, 0xA0], 12, 5).unwrap();
    assert_eq!(dec_pos(&b, 14), 10);
    assert_eq!(dec_pos(&b, 11), 10);
}

#[test]
fn dec_pos_checked_refuses_positions_outside_text() {
    let b = GapBuffer::new(1, &cafe(), 4, 2).unwrap();
    assert_eq!(dec_pos_checked(&b, 1), Err(CharError::OutOfRange(1)));
    assert_eq!(dec_pos_checked(&b, 0), Err(CharError::OutOfRange(0)));
    assert_eq!(dec_pos_checked(&b, 7), Err(CharError::OutOfRange(7)));
    assert_eq!(dec_pos_checked(&b, 6), Ok(4));
    assert_eq!(dec_pos_checked(&b, 2), Ok(1));
}

#[test]
fn physical_address_skips_the_gap() {
    let b = GapBuffer::new(1, &cafe(), 3, 10).unwrap();
    assert_eq!(b.beg_byte(), 1);
    assert_eq!(b.end_byte(), 6);
    assert_eq!(b.gpt_byte(), 3);
    assert_eq!(b.gap_size(), 10);
    assert_eq!(b.physical_address_of(1), 0);
    assert_eq!(b.physical_address_of(2), 1);
    assert_eq!(b.physical_address_of(3), 12);
    assert_eq!(b.physical_address_of(5), 14);
    assert_eq!(b.fetch_byte(3), 0x66);
}

#[test]
fn new_refuses_gap_outside_text() {
    assert_eq!(GapBuffer::new(1, &cafe(), 0, 2).err(), Some(CharError::OutOfRange(0)));
    assert_eq!(GapBuffer::new(1, &cafe(), 7, 2).err(), Some(CharError::OutOfRange(7)));
    assert_eq!(
        GapBuffer::new(1, &cafe(), 3, usize::MAX).err(),
        Some(CharError::OutOfRange(3))
    );
    assert!(GapBuffer::new(1, &cafe(), 6, 0).is_ok());
    let empty = GapBuffer::new(5, &Vec::new(), 5, 4).unwrap();
    assert_eq!(empty.end_byte(), 5);
}
