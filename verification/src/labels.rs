//! Class labels of the sign alphabet: each class is a folder named by its
//! letter or digit, and "A" to "Z" are classes 0 to 25, "0" to "9" are
//! classes 26 to 35.

use vstd::prelude::*;

verus! {

/// Number of classes in the sign alphabet (26 letters and 10 digits).
pub const CLASS_COUNT: usize = 36;

/// The class of a folder's leading character, if it names one.
pub open spec fn class_of_char(c: char) -> Option<nat> {
    if 'A' <= c && c <= 'Z' {
        Some((c as nat - 'A' as nat) as nat)
    } else if '0' <= c && c <= '9' {
        Some((c as nat - '0' as nat + 26) as nat)
    } else {
        None
    }
}

/// The class named by a folder: that of its first character.
pub open spec fn class_of_name(name: Seq<char>) -> Option<nat> {
    if name.len() == 0 {
        None
    } else {
        class_of_char(name[0])
    }
}

/// Class of an upper-case letter or a digit; `None` for any other character.
pub fn label_for_char(c: char) -> (label: Option<usize>)
    ensures
        label matches Some(l) ==> class_of_char(c) == Some(l as nat),
        label is None <==> class_of_char(c) is None,
{
    if 'A' <= c && c <= 'Z' {
        Some((c as u32 - 'A' as u32) as usize)
    } else if '0' <= c && c <= '9' {
        Some((c as u32 - '0' as u32) as usize + 26)
    } else {
        None
    }
}

/// Class named by a dataset folder, read from its first character;
/// `None` when the name is empty or does not start with `A`-`Z` or `0`-`9`.
pub fn label_for_dir_name(name: &str) -> (label: Option<usize>)
    ensures
        label matches Some(l) ==> class_of_name(name@) == Some(l as nat),
        label is None <==> class_of_name(name@) is None,
{
    if name.unicode_len() == 0 {
        None
    } else {
        label_for_char(name.get_char(0))
    }
}

/// Every class is below `CLASS_COUNT`, and two characters that name a class
/// name the same class only if they are the same character.
pub proof fn lemma_class_of_char_range_injective(c1: char, c2: char)
    ensures
        class_of_char(c1) matches Some(l) ==> l < CLASS_COUNT,
        class_of_char(c1) is Some && class_of_char(c1) == class_of_char(c2) ==> c1 == c2,
{
}

/// Every class below `CLASS_COUNT` is named by some character.
pub proof fn lemma_class_of_char_onto(l: nat)
    requires
        l < CLASS_COUNT,
    ensures
        exists|c: char| class_of_char(c) == Some(l),
{
    if l < 26 {
        let c = (65 + l) as char;
        assert(class_of_char(c) == Some(l));
    } else {
        let c = (48 + l - 26) as char;
        assert(class_of_char(c) == Some(l));
    }
}

/// A class and the character naming it: class `l` below 26 is named by the
/// letter of code `65 + l` (`'A' + l`), class `l` from 26 to 35 by the digit
/// of code `48 + l - 26` (`'0' + l - 26`), and no other character names a class.
pub proof fn lemma_class_of_char_codes(c: char)
    ensures
        class_of_char(c) matches Some(l) ==> ((l < 26 && c as nat == 65 + l) || (26 <= l < 36 && c as nat
            == 22 + l)),
        (65 <= c as nat <= 90) ==> class_of_char(c) == Some((c as nat - 65) as nat),
        (48 <= c as nat <= 57) ==> class_of_char(c) == Some((c as nat - 22) as nat),
        !(65 <= c as nat <= 90) && !(48 <= c as nat <= 57) ==> class_of_char(c) is None,
{
}

/// A folder's class is read from its first character alone: the rest of the
/// name does not matter, and an empty name names no class.
pub proof fn lemma_class_of_name_first_char(c: char, rest: Seq<char>)
    ensures
        class_of_name(seq![c] + rest) == class_of_char(c),
        class_of_name(Seq::empty()) is None,
{
    assert((seq![c] + rest)[0] == c);
}

} // verus!
