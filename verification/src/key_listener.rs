//! Key presses as the global keyboard hook reports them, and the names the
//! hook gives to virtual-key codes.

use vstd::prelude::*;

use crate::text::{decimal, push_char, push_decimal};

verus! {

/// The foreground application at the time of a key press.
#[derive(Debug, Clone, PartialEq, Eq)]
pub struct ActiveApplication {
    pub process_name: String,
    pub window_title: String,
}

/// One key press, with the application that had the focus, if known.
#[derive(Debug, Clone, PartialEq, Eq)]
pub struct KeyPress {
    pub key: String,
    pub application: Option<ActiveApplication>,
}

/// The name of the key with virtual-key code `vk`: digits and letters by their
/// character, function keys as `F1`..`F24`, a few navigation and editing keys
/// by name, `0xDD` as `]`; other codes have none.
pub open spec fn key_name(vk: u32) -> Option<Seq<char>> {
    if (0x30 <= vk && vk <= 0x39) || (0x41 <= vk && vk <= 0x5A) {
        Some(seq![vk as char])
    } else if 0x70 <= vk && vk <= 0x87 {
        Some(seq!['F'] + decimal((vk - 0x6F) as nat))
    } else if vk == 0x21 {
        Some("PageUp"@)
    } else if vk == 0x22 {
        Some("PageDown"@)
    } else if vk == 0x23 {
        Some("End"@)
    } else if vk == 0x24 {
        Some("Home"@)
    } else if vk == 0x25 {
        Some("ArrowLeft"@)
    } else if vk == 0x26 {
        Some("ArrowUp"@)
    } else if vk == 0x27 {
        Some("ArrowRight"@)
    } else if vk == 0x28 {
        Some("ArrowDown"@)
    } else if vk == 0x2D {
        Some("Insert"@)
    } else if vk == 0x2E {
        Some("Delete"@)
    } else if vk == 0x20 {
        Some("Space"@)
    } else if vk == 0x09 {
        Some("Tab"@)
    } else if vk == 0x0D {
        Some("Enter"@)
    } else if vk == 0x1B {
        Some("Escape"@)
    } else if vk == 0xDD {
        Some("]"@)
    } else {
        None
    }
}

/// The name of the key with virtual-key code `vk_code` (see `key_name`).
pub fn key_name_from_vk(vk_code: u32) -> (r: Option<String>)
    ensures
        match r {
            Some(s) => key_name(vk_code) == Some(s@),
            None => key_name(vk_code) is None,
        },
{
    if (0x30 <= vk_code && vk_code <= 0x39) || (0x41 <= vk_code && vk_code <= 0x5A) {
        let b: u8 = vk_code as u8;
        let mut s = String::new();
        push_char(&mut s, b as char);
        assert(s@ =~= seq![vk_code as char]);
        return Some(s);
    }
    if 0x70 <= vk_code && vk_code <= 0x87 {
        let mut s = String::new();
        push_char(&mut s, 'F');
        push_decimal(&mut s, (vk_code - 0x6F) as u64);
        return Some(s);
    }
    let name = if vk_code == 0x21 {
        "PageUp"
    } else if vk_code == 0x22 {
        "PageDown"
    } else if vk_code == 0x23 {
        "End"
    } else if vk_code == 0x24 {
        "Home"
    } else if vk_code == 0x25 {
        "ArrowLeft"
    } else if vk_code == 0x26 {
        "ArrowUp"
    } else if vk_code == 0x27 {
        "ArrowRight"
    } else if vk_code == 0x28 {
        "ArrowDown"
    } else if vk_code == 0x2D {
        "Insert"
    } else if vk_code == 0x2E {
        "Delete"
    } else if vk_code == 0x20 {
        "Space"
    } else if vk_code == 0x09 {
        "Tab"
    } else if vk_code == 0x0D {
        "Enter"
    } else if vk_code == 0x1B {
        "Escape"
    } else if vk_code == 0xDD {
        "]"
    } else {
        return None;
    };
    Some(String::from_str(name))
}

/// Every digit key (codes 0x30-0x39) and every letter key (0x41-0x5A) is
/// named by its own character, a single ASCII digit or upper-case letter.
pub proof fn lemma_digit_and_letter_keys_named_by_their_character(vk: u32)
    requires
        (0x30 <= vk <= 0x39) || (0x41 <= vk <= 0x5A),
    ensures
        key_name(vk) is Some,
        key_name(vk).unwrap().len() == 1,
        key_name(vk).unwrap()[0] as u32 == vk,
        ('0' <= key_name(vk).unwrap()[0] <= '9') || ('A' <= key_name(vk).unwrap()[0] <= 'Z'),
{
}

/// Every function key F1-F24 (codes 0x70-0x87) is named `F` and its number.
pub proof fn lemma_function_keys_named_by_number(k: u32)
    requires
        1 <= k <= 24,
    ensures
        key_name((0x6F + k) as u32) is Some,
        key_name((0x6F + k) as u32).unwrap()[0] == 'F',
        k < 10 ==> key_name((0x6F + k) as u32).unwrap() == seq!['F', (k + 48) as char],
        k >= 10 ==> key_name((0x6F + k) as u32).unwrap() == seq![
            'F',
            (k / 10 + 48) as char,
            (k % 10 + 48) as char,
        ],
{
    let vk = (0x6F + k) as u32;
    if k >= 10 {
        assert(decimal((k / 10) as nat) == seq![(k / 10 + 48) as char]);
        assert(decimal(k as nat) =~= seq![(k / 10 + 48) as char, (k % 10 + 48) as char]);
        assert(seq!['F'] + decimal(k as nat) =~= seq!['F', (k / 10 + 48) as char, (k % 10 + 48) as char]);
    } else {
        assert(seq!['F'] + decimal(k as nat) =~= seq!['F', (k + 48) as char]);
    }
}

pub open spec fn is_char_key(vk: u32) -> bool {
    (0x30 <= vk && vk <= 0x39) || (0x41 <= vk && vk <= 0x5A)
}

pub open spec fn is_function_key(vk: u32) -> bool {
    0x70 <= vk && vk <= 0x87
}

proof fn lemma_char_key_name(vk: u32)
    requires
        is_char_key(vk),
    ensures
        key_name(vk) == Some(seq![vk as char]),
        (vk as char) as u32 == vk,
{
}

proof fn lemma_named_key_names(vk: u32)
    requires
        key_name(vk) is Some,
        !is_char_key(vk),
        !is_function_key(vk),
    ensures
        key_name(vk).unwrap().len() >= 1,
        key_name(vk).unwrap().len() == 1 ==> vk == 0xDD && key_name(vk).unwrap()[0] == ']',
        key_name(vk).unwrap()[0] != 'F',
{
    reveal_strlit("PageUp");
    reveal_strlit("PageDown");
    reveal_strlit("End");
    reveal_strlit("Home");
    reveal_strlit("ArrowLeft");
    reveal_strlit("ArrowUp");
    reveal_strlit("ArrowRight");
    reveal_strlit("ArrowDown");
    reveal_strlit("Insert");
    reveal_strlit("Delete");
    reveal_strlit("Space");
    reveal_strlit("Tab");
    reveal_strlit("Enter");
    reveal_strlit("Escape");
    reveal_strlit("]");
}

#[verifier::rlimit(50)]
proof fn lemma_named_keys_distinct(a: u32, b: u32)
    requires
        key_name(a) is Some,
        key_name(a) == key_name(b),
        !is_char_key(a),
        !is_function_key(a),
        !is_char_key(b),
        !is_function_key(b),
    ensures
        a == b,
{
    reveal_strlit("PageUp");
    reveal_strlit("PageDown");
    reveal_strlit("End");
    reveal_strlit("Home");
    reveal_strlit("ArrowLeft");
    reveal_strlit("ArrowUp");
    reveal_strlit("ArrowRight");
    reveal_strlit("ArrowDown");
    reveal_strlit("Insert");
    reveal_strlit("Delete");
    reveal_strlit("Space");
    reveal_strlit("Tab");
    reveal_strlit("Enter");
    reveal_strlit("Escape");
    reveal_strlit("]");
    let n = key_name(a).unwrap();
    assert(n.len() == key_name(b).unwrap().len());
    assert(n[0] == key_name(b).unwrap()[0]);
    if n.len() > 5 {
        assert(n[5] == key_name(b).unwrap()[5]);
    }
    if n.len() > 6 {
        assert(n[6] == key_name(b).unwrap()[6]);
    }
}

/// Different keys get different names: no two virtual-key codes share a name.
pub proof fn lemma_key_names_are_distinct(a: u32, b: u32)
    requires
        key_name(a) is Some,
        key_name(a) == key_name(b),
    ensures
        a == b,
{
    let n = key_name(a).unwrap();
    if is_char_key(a) {
        lemma_char_key_name(a);
        if is_char_key(b) {
            lemma_char_key_name(b);
            assert(n[0] == a as char);
            assert(key_name(b).unwrap()[0] == b as char);
        } else if is_function_key(b) {
            lemma_function_key_shape(b);
        } else {
            lemma_named_key_names(b);
        }
    } else if is_function_key(a) {
        lemma_function_key_shape(a);
        if is_char_key(b) {
            lemma_char_key_name(b);
        } else if is_function_key(b) {
            lemma_function_key_shape(b);
            let ka = (a - 0x6F) as u32;
            let kb = (b - 0x6F) as u32;
            lemma_function_keys_named_by_number(ka);
            lemma_function_keys_named_by_number(kb);
            assert((0x6F + ka) as u32 == a);
            assert((0x6F + kb) as u32 == b);
            assert(n[1] == key_name(b).unwrap()[1]);
            if ka >= 10 && kb >= 10 {
                assert(n[2] == key_name(b).unwrap()[2]);
                assert(ka == (ka / 10) * 10 + ka % 10);
                assert(kb == (kb / 10) * 10 + kb % 10);
            } else if ka < 10 && kb < 10 {
            } else {
                assert(n.len() == key_name(b).unwrap().len());
            }
        } else {
            lemma_named_key_names(b);
        }
    } else {
        lemma_named_key_names(a);
        if is_char_key(b) {
            lemma_char_key_name(b);
        } else if is_function_key(b) {
            lemma_function_key_shape(b);
        } else {
            lemma_named_keys_distinct(a, b);
        }
    }
}

proof fn lemma_function_key_shape(vk: u32)
    requires
        0x70 <= vk <= 0x87,
    ensures
        key_name(vk) is Some,
        key_name(vk).unwrap()[0] == 'F',
        2 <= key_name(vk).unwrap().len() <= 3,
        ('1' <= key_name(vk).unwrap()[1] <= '9'),
{
    let k = (vk - 0x6F) as u32;
    lemma_function_keys_named_by_number(k);
    assert((0x6F + k) as u32 == vk);
}

} // verus!
