use regex::Regex;
use tinywad::names::{
    music_name, numbered_flat_end, numbered_flat_start, numbered_patch_end, numbered_patch_start,
    same_bytes, virtual_marker, word_at,
};

/// Names put together from the pieces that marker names are made of.
fn composed() -> Vec<String> {
    let heads = ["", "X", "F", "S", "P", "D", "FF", "SS", "PS", "SP", "XF", "FX", "FFF", "D_", "_"];
    let middles = ["", "_", "1", "12", "123", "_1", "1_", "__", "_12", "_123", "9", "0_0"];
    let tails = ["", "_START", "_END", "START", "END", "_STAR", "_ENDX", "_STARTX", "_END_", "_end"];
    let mut out = Vec::new();
    for h in heads {
        for m in middles {
            for t in tails {
                out.push(format!("{}{}{}", h, m, t));
            }
        }
    }
    out
}

/// Every name of up to `len` letters of `alphabet`.
fn all_names(alphabet: &[u8], len: usize) -> Vec<String> {
    let mut out = vec![String::new()];
    let mut last = vec![String::new()];
    for _ in 0..len {
        let mut next = Vec::new();
        for s in &last {
            for c in alphabet {
                let mut t = s.clone();
                t.push(*c as char);
                next.push(t);
            }
        }
        out.extend(next.iter().cloned());
        last = next;
    }
    out
}

fn agree(pattern: &str, check: fn(&[u8]) -> bool) {
    let re = Regex::new(pattern).unwrap();
    for name in composed() {
        assert_eq!(check(name.as_bytes()), re.is_match(&name), "{:?} against {}", name, pattern);
    }
    for name in all_names(b"FS_1END", 6) {
        assert_eq!(check(name.as_bytes()), re.is_match(&name), "{:?} against {}", name, pattern);
    }
    for head in all_names(b"FPS_12", 4) {
        for tail in ["_START", "_END", "START", "_ENDS"] {
            let name = format!("{}{}", head, tail);
            assert_eq!(check(name.as_bytes()), re.is_match(&name), "{:?} against {}", name, pattern);
        }
    }
}

#[test]
fn virtual_marker_is_the_marker_pattern() {
    agree(r"^([FPS]{1,2}_(?:START|END))|([FPS]{1}_?\d{0,2}_(?:START|END))$", virtual_marker);
}

#[test]
fn numbered_flat_start_is_its_pattern() {
    agree("F[0-9]+_START", numbered_flat_start);
}

#[test]
fn numbered_flat_end_is_its_pattern() {
    agree("F[0-9]+_END", numbered_flat_end);
}

#[test]
fn numbered_patch_start_is_its_pattern() {
    agree("S[0-9]+_START", numbered_patch_start);
}

#[test]
fn numbered_patch_end_is_its_pattern() {
    agree("S[0-9]+_END", numbered_patch_end);
}

#[test]
fn music_name_is_its_pattern() {
    agree("^D_", music_name);
}

#[test]
fn marker_names_are_told_apart() {
    for name in ["F_START", "F_END", "S_START", "S_END", "P_START", "P_END", "FF_START", "SS_END",
        "PP_START", "F1_START", "S12_END", "F_1_END", "P_12_END", "XF_START", "XS1_END", "F__START"]
    {
        assert!(virtual_marker(name.as_bytes()), "{}", name);
    }
    for name in ["", "START", "_START", "F_STAR", "FLOOR", "F123_END", "X_START",
        "f_start", "F1_STARTX", "F1X_END"]
    {
        assert!(!virtual_marker(name.as_bytes()), "{}", name);
    }
    assert!(virtual_marker(b"F_STARTX"));
    assert!(virtual_marker(b"FFF_END"));
    assert!(virtual_marker(b"F_ENDX"));
    assert!(virtual_marker(b"F_START1X"));
    assert!(numbered_flat_start(b"F1_START"));
    assert!(numbered_flat_start(b"F123_START"));
    assert!(!numbered_flat_start(b"F_START"));
    assert!(!numbered_flat_start(b"S1_START"));
    assert!(numbered_flat_end(b"XF12_ENDX"));
    assert!(numbered_patch_end(b"S0_END"));
    assert!(!numbered_patch_end(b"S_END"));
    assert!(music_name(b"D_E1M1"));
    assert!(music_name(b"D_"));
    assert!(!music_name(b"D"));
    assert!(!music_name(b"XD_"));
}

#[test]
fn words_are_found_where_they_stand() {
    assert!(word_at(b"F_START", 1, "_START"));
    assert!(!word_at(b"F_START", 2, "_START"));
    assert!(!word_at(b"F_STAR", 1, "_START"));
    assert!(word_at(b"ABC", 3, ""));
    assert!(!word_at(b"ABC", 4, ""));
    assert!(same_bytes(b"", b""));
    assert!(same_bytes(b"AB", b"AB"));
    assert!(!same_bytes(b"AB", b"AC"));
    assert!(!same_bytes(b"AB", b"ABC"));
}
