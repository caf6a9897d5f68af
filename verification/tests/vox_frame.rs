use vtrace::voxel::magica_voxel::{load_magica_voxel_bytes, parse_magica_voxel};
use vtrace::voxel::vox_frame::frame_ok;

/// A small generator of numbers that gives the same run every time.
struct Dice(u64);

impl Dice {
    fn roll(&mut self, sides: usize) -> usize {
        self.0 = self.0.wrapping_mul(6364136223846793005).wrapping_add(1442695040888963407);
        ((self.0 >> 33) as usize) % sides.max(1)
    }
}

const NAMES: [&str; 9] = ["SIZE", "XYZI", "RGBA", "MATL", "PACK", "MAIN", "nTRN", "LAYR", "\u{1}\u{2}\u{3}\u{4}"];

fn word(n: u32) -> Vec<u8> {
    n.to_le_bytes().to_vec()
}

fn small_count(dice: &mut Dice) -> u32 {
    match dice.roll(8) {
        0 => u32::MAX,
        1 => 0x8000_0000,
        2 => 1 << 16,
        _ => dice.roll(6) as u32,
    }
}

fn random_content(dice: &mut Dice, name: &str) -> Vec<u8> {
    let mut content = Vec::new();
    match name {
        "SIZE" => {
            for _ in 0..dice.roll(5) {
                content.extend(word(dice.roll(4) as u32));
            }
        }
        "XYZI" => {
            content.extend(word(small_count(dice)));
            for _ in 0..dice.roll(12) {
                content.push(dice.roll(4) as u8);
            }
        }
        "MATL" => {
            content.extend(word(dice.roll(3) as u32));
            content.extend(word(small_count(dice)));
            for _ in 0..dice.roll(5) {
                let len = dice.roll(4);
                content.extend(word(if dice.roll(6) == 0 { small_count(dice) } else { len as u32 }));
                for _ in 0..len {
                    content.push(if dice.roll(10) == 0 { 0xFF } else { b'a' });
                }
            }
        }
        _ => {
            for _ in 0..dice.roll(10) {
                content.push(dice.roll(256) as u8);
            }
        }
    }
    if dice.roll(5) == 0 {
        content.truncate(dice.roll(content.len() + 1));
    }
    content
}

fn random_chunk(dice: &mut Dice, depth: usize) -> Vec<u8> {
    let name = NAMES[dice.roll(NAMES.len())];
    let content = random_content(dice, name);
    let mut children = Vec::new();
    if depth > 0 && dice.roll(4) == 0 {
        for _ in 0..dice.roll(3) {
            children.extend(random_chunk(dice, depth - 1));
        }
    }
    let mut bytes = name.as_bytes().to_vec();
    bytes.extend(word(if dice.roll(12) == 0 { small_count(dice) } else { content.len() as u32 }));
    bytes.extend(word(if dice.roll(12) == 0 { small_count(dice) } else { children.len() as u32 }));
    bytes.extend(content);
    bytes.extend(children);
    bytes
}

fn random_file(dice: &mut Dice) -> Vec<u8> {
    let mut children = Vec::new();
    for _ in 0..dice.roll(6) {
        children.extend(random_chunk(dice, 2));
    }
    let top = if dice.roll(6) == 0 { NAMES[dice.roll(NAMES.len())] } else { "MAIN" };
    let content = if dice.roll(6) == 0 { random_content(dice, top) } else { Vec::new() };
    let mut bytes = b"VOX ".to_vec();
    bytes.extend(word(150));
    bytes.extend(top.as_bytes());
    bytes.extend(word(content.len() as u32));
    bytes.extend(word(children.len() as u32));
    bytes.extend(content);
    bytes.extend(children);
    match dice.roll(6) {
        0 => bytes.truncate(dice.roll(bytes.len() + 1)),
        1 => {
            let at = dice.roll(bytes.len());
            bytes[at] = dice.roll(256) as u8;
        }
        2 => bytes.push(dice.roll(256) as u8),
        _ => {}
    }
    bytes
}

/// Every file that passes for soundly framed is read to the end by the
/// parser, whatever it holds: none of them makes the parser give up with a
/// panic.
#[test]
fn soundly_framed_files_are_read_without_a_panic() {
    let mut dice = Dice(0x5EED);
    let mut sound = 0;
    let mut parsed = 0;
    for _ in 0..60000 {
        let bytes = random_file(&mut dice);
        if frame_ok(&bytes) {
            sound += 1;
        }
        if parse_magica_voxel(&bytes).is_some() {
            parsed += 1;
        }
        let _ = load_magica_voxel_bytes(&bytes);
    }
    assert!(sound > 5000, "only {} files were soundly framed", sound);
    assert!(parsed > 3000, "only {} files were read", parsed);
}

#[test]
fn every_cut_of_a_file_is_handled() {
    let mut dice = Dice(7);
    for _ in 0..200 {
        let bytes = random_file(&mut dice);
        for cut in 0..=bytes.len() {
            let _ = load_magica_voxel_bytes(&bytes[..cut]);
        }
    }
}
