use shared_bucket::scan::find_end;
use shared_bucket::{DecodeError, Decoder};

/// Skips the item at the start of `bytes` and checks that the decoder
/// stands where the end of the item was found, or that it has not moved
/// where no end was found.
fn skip_agrees(bytes: &[u8]) -> bool {
    let mut d = Decoder::new(bytes);
    match find_end(bytes, 0) {
        Some(end) => {
            assert_eq!(d.skip(), Ok(()), "input {:x?}", bytes);
            assert_eq!(d.offset(), end, "input {:x?}", bytes);
            true
        }
        None => {
            assert_eq!(d.skip(), Err(DecodeError::Malformed), "input {:x?}", bytes);
            assert_eq!(d.offset(), 0);
            false
        }
    }
}

/// Walks through every input of the given length over the alphabet.
fn all_inputs(alphabet: &[u8], length: usize) -> u64 {
    let mut skipped = 0;
    let mut digits = vec![0usize; length];
    let mut bytes = vec![alphabet[0]; length];
    loop {
        if skip_agrees(&bytes) {
            skipped += 1;
        }
        let mut i = 0;
        loop {
            if i == length {
                return skipped;
            }
            digits[i] += 1;
            if digits[i] < alphabet.len() {
                bytes[i] = alphabet[digits[i]];
                break;
            }
            digits[i] = 0;
            bytes[i] = alphabet[0];
            i += 1;
        }
    }
}

#[test]
fn skip_lands_where_the_end_was_found_on_every_short_input() {
    let alphabet = [
        0x00, 0x18, 0x20, 0x41, 0x5f, 0x60, 0x61, 0x7f, 0x80, 0x81, 0x82, 0x9f, 0xa0, 0xa1, 0xbf,
        0xc1, 0xf6, 0xf8, 0xff,
    ];
    let mut skipped = 0;
    for length in 1..5 {
        skipped += all_inputs(&alphabet, length);
    }
    assert!(skipped > 10000);
}

#[test]
fn skip_lands_where_the_end_was_found_on_nested_containers() {
    let alphabet = [0x01, 0x82, 0x83, 0x9f, 0xbf, 0xff];
    let mut skipped = 0;
    for length in 1..9 {
        skipped += all_inputs(&alphabet, length);
    }
    assert!(skipped > 10000);
}

#[test]
fn skip_lands_where_the_end_was_found_on_strings_in_chunks() {
    let alphabet = [0x5f, 0x7f, 0x40, 0x41, 0x60, 0x61, 0x81, 0x9f, 0xc0, 0xff];
    let mut skipped = 0;
    for length in 1..7 {
        skipped += all_inputs(&alphabet, length);
    }
    assert!(skipped > 1000);
}

/// A source of numbers that runs the same way every time.
struct Dice(u64);

impl Dice {
    fn roll(&mut self, sides: u64) -> u64 {
        self.0 = self.0.wrapping_mul(6364136223846793005).wrapping_add(1442695040888963407);
        (self.0 >> 33) % sides
    }
}

/// Writes an item that is closed, of whatever kind the dice say.
fn write_item(dice: &mut Dice, depth: u32, out: &mut Vec<u8>) {
    let kind = if depth == 0 { dice.roll(6) } else { dice.roll(13) };
    match kind {
        0 => out.push(dice.roll(24) as u8),
        1 => out.extend_from_slice(&[0x19, dice.roll(256) as u8, dice.roll(256) as u8]),
        2 => out.push(0x20 + dice.roll(24) as u8),
        3 => {
            let n = dice.roll(4) as u8;
            out.push(0x40 + n);
            for _ in 0..n {
                out.push(dice.roll(256) as u8);
            }
        }
        4 => {
            let n = dice.roll(4) as u8;
            out.push(0x60 + n);
            for _ in 0..n {
                out.push(dice.roll(256) as u8);
            }
        }
        5 => out.push(0xe0 + dice.roll(24) as u8),
        6 => {
            let n = dice.roll(4) as u8;
            out.push(0x80 + n);
            for _ in 0..n {
                write_item(dice, depth - 1, out);
            }
        }
        7 => {
            let n = dice.roll(3) as u8;
            out.push(0xa0 + n);
            for _ in 0..2 * n {
                write_item(dice, depth - 1, out);
            }
        }
        8 => {
            out.push(0x9f);
            for _ in 0..dice.roll(4) {
                write_item(dice, depth - 1, out);
            }
            out.push(0xff);
        }
        9 => {
            out.push(0xbf);
            for _ in 0..dice.roll(4) {
                write_item(dice, depth - 1, out);
            }
            out.push(0xff);
        }
        10 => {
            let major = if dice.roll(2) == 0 { 0x40 } else { 0x60 };
            out.push(major + 0x1f);
            for _ in 0..dice.roll(3) {
                let n = dice.roll(3) as u8;
                out.push(major + n);
                for _ in 0..n {
                    out.push(dice.roll(256) as u8);
                }
            }
            out.push(0xff);
        }
        11 => {
            out.push(0xc0 + dice.roll(24) as u8);
            write_item(dice, depth - 1, out);
        }
        _ => out.extend_from_slice(&[0xfa, 0x3f, 0x80, 0x00, 0x00]),
    }
}

#[test]
fn skip_lands_behind_every_closed_item() {
    let mut dice = Dice(7);
    for round in 0..20000 {
        let mut bytes = Vec::new();
        write_item(&mut dice, 1 + (round % 6) as u32, &mut bytes);
        let end = bytes.len();
        // Whatever follows does not matter.
        for _ in 0..dice.roll(3) {
            bytes.push(dice.roll(256) as u8);
        }
        assert_eq!(find_end(&bytes, 0), Some(end), "input {:x?}", bytes);
        let mut d = Decoder::new(&bytes);
        assert_eq!(d.skip(), Ok(()), "input {:x?}", bytes);
        assert_eq!(d.offset(), end, "input {:x?}", bytes);
    }
}

#[test]
fn skip_refuses_every_item_that_is_cut_short() {
    let mut dice = Dice(11);
    for round in 0..5000 {
        let mut bytes = Vec::new();
        write_item(&mut dice, 1 + (round % 5) as u32, &mut bytes);
        for cut in 0..bytes.len() {
            let mut d = Decoder::new(&bytes[..cut]);
            assert_eq!(find_end(&bytes[..cut], 0), None, "input {:x?}", &bytes[..cut]);
            assert_eq!(d.skip(), Err(DecodeError::Malformed));
        }
    }
}
