//! Behaviours that the exercised element types take from the input: clones,
//! comparisons and callbacks that read the input (its first or second half)
//! to decide what to do, and deliberately panic on some inputs.
//!
//! Many of them pick the half they read by a selector: the `usize` at a key
//! offset of the first half plus a number of the instance, modulo 3. A
//! selector of 0 panics; 1 picks the first half and 2 the second.
use vstd::prelude::*;
use vstd::string::StringSliceAdditionalSpecFns;
use vstd::utf8::{encode_utf8, valid_utf8};
use crate::bytes::{_to_bool, _to_str, _to_u8, _to_usize};
use crate::script::{fits, read_u8, read_usize, usize_at, Halt};

verus! {

/// Which half of the input a behaviour reads.
#[derive(Clone, Copy, Debug, PartialEq, Eq, Structural)]
pub enum Half {
    First,
    Second,
}

/// The half that a selector picks, or why it stops: a read past the first
/// half, an overflowing sum, or a deliberate panic.
pub open spec fn selected_half(first: Seq<u8>, key_at: int, instance: nat) -> Result<Half, Halt> {
    if !fits(first, key_at, 8) {
        Err(Halt::InputExhausted)
    } else if usize_at(first, key_at) + instance > usize::MAX {
        Err(Halt::ArithmeticOverflow)
    } else {
        let selector = (usize_at(first, key_at) + instance) % 3;
        if selector == 0 {
            Err(Halt::Intentional)
        } else if selector == 1 {
            Ok(Half::First)
        } else {
            Ok(Half::Second)
        }
    }
}

/// The selector repeats every three instances: instances three apart pick
/// the same half, or both panic, unless the sum overflows.
pub proof fn law_selector_period(first: Seq<u8>, key_at: int, n: nat)
    requires
        fits(first, key_at, 8),
        usize_at(first, key_at) + n + 3 <= usize::MAX,
    ensures
        selected_half(first, key_at, n) == selected_half(first, key_at, n + 3),
{
    let k = usize_at(first, key_at) as int;
    assert((k + n + 3) % 3 == (k + n) % 3);
}

/// The half that the selector at `key_at` picks for `instance` (see
/// `selected_half`).
pub fn select_half(first: &[u8], key_at: usize, instance: usize) -> (r: Result<Half, Halt>)
    ensures
        r == selected_half(first@, key_at as int, instance as nat),
{
    let custom_impl_num = match read_usize(first, key_at) {
        Some(n) => n,
        None => return Err(Halt::InputExhausted),
    };
    if custom_impl_num > usize::MAX - instance {
        return Err(Halt::ArithmeticOverflow);
    }
    let selector = (custom_impl_num + instance) % 3;
    if selector == 0 {
        Err(Halt::Intentional)
    } else if selector == 1 {
        Ok(Half::First)
    } else {
        Ok(Half::Second)
    }
}

/// The bytes of a half.
pub open spec fn half_bytes(h: Half, first: Seq<u8>, second: Seq<u8>) -> Seq<u8> {
    match h {
        Half::First => first,
        Half::Second => second,
    }
}

fn half_of<'a>(h: Half, first: &'a [u8], second: &'a [u8]) -> (r: &'a [u8])
    ensures
        r@ == half_bytes(h, first@, second@),
{
    match h {
        Half::First => first,
        Half::Second => second,
    }
}

/// A clone of a number-carrying element: the `usize` at `value_at` of the
/// selected half, the selector keyed by the element's own number.
pub open spec fn cloned_number(first: Seq<u8>, second: Seq<u8>, key_at: int, value_at: int, n: nat) -> Result<
    usize,
    Halt,
> {
    match selected_half(first, key_at, n) {
        Err(h) => Err(h),
        Ok(half) => {
            let bytes = half_bytes(half, first, second);
            if !fits(bytes, value_at, 8) {
                Err(Halt::InputExhausted)
            } else {
                Ok(usize_at(bytes, value_at))
            }
        },
    }
}

/// `Clone` of a number-carrying element (see `cloned_number`).
pub fn clone_number(first: &[u8], second: &[u8], key_at: usize, value_at: usize, n: usize) -> (r: Result<usize, Halt>)
    ensures
        r == cloned_number(first@, second@, key_at as int, value_at as int, n as nat),
{
    let half = match select_half(first, key_at, n) {
        Ok(h) => h,
        Err(e) => return Err(e),
    };
    let bytes = half_of(half, first, second);
    match read_usize(bytes, value_at) {
        Some(v) => Ok(v),
        None => Err(Halt::InputExhausted),
    }
}

/// `Hash` of a number-carrying element: feeds nothing to the hasher, but
/// stops where the selector keyed by the element's number does.
pub fn hash_number(first: &[u8], key_at: usize, n: usize) -> (r: Result<(), Halt>)
    ensures
        r is Ok <==> selected_half(first@, key_at as int, n as nat) is Ok,
        r matches Err(h) ==> selected_half(first@, key_at as int, n as nat) == Err::<Half, Halt>(h),
{
    match select_half(first, key_at, n) {
        Ok(_) => Ok(()),
        Err(e) => Err(e),
    }
}

/// Equality of a text-carrying element: the parity of the byte at `bool_at`
/// of the selected half, the selector keyed by the length of its text.
pub open spec fn text_equality(first: Seq<u8>, second: Seq<u8>, key_at: int, bool_at: int, len: nat) -> Result<
    bool,
    Halt,
> {
    match selected_half(first, key_at, len) {
        Err(h) => Err(h),
        Ok(half) => {
            let bytes = half_bytes(half, first, second);
            if !fits(bytes, bool_at, 1) {
                Err(Halt::InputExhausted)
            } else {
                Ok(bytes[bool_at] % 2 == 0)
            }
        },
    }
}

/// `PartialEq::eq` of a text-carrying element (see `text_equality`); the
/// other element is not looked at.
pub fn text_eq(first: &[u8], second: &[u8], key_at: usize, bool_at: usize, text: &str) -> (r: Result<bool, Halt>)
    ensures
        r == text_equality(first@, second@, key_at as int, bool_at as int, text.len() as nat),
{
    let half = match select_half(first, key_at, text.len()) {
        Ok(h) => h,
        Err(e) => return Err(e),
    };
    let bytes = half_of(half, first, second);
    if bool_at >= bytes.len() {
        return Err(Halt::InputExhausted);
    }
    Ok(_to_bool(bytes, bool_at))
}

/// The text of `max_len` bytes or fewer at `len_at + 1`, its length being the
/// byte at `len_at` modulo `modulus`; the program exits where the text is not
/// UTF-8.
pub open spec fn text_at(bytes: Seq<u8>, len_at: int, modulus: nat) -> Result<Seq<u8>, Halt> {
    if !fits(bytes, len_at, 1) {
        Err(Halt::InputExhausted)
    } else {
        let len = (bytes[len_at] as nat) % modulus;
        if !fits(bytes, len_at + 1, len as int) {
            Err(Halt::InputExhausted)
        } else {
            let text = bytes.subrange(len_at + 1, len_at + 1 + len);
            if valid_utf8(text) {
                Ok(text)
            } else {
                Err(Halt::Exit)
            }
        }
    }
}

/// Reads the text described by `text_at`, as an owned string.
pub fn read_text(bytes: &[u8], len_at: usize, modulus: u8) -> (r: Result<String, Halt>)
    requires
        modulus > 0,
    ensures
        match r {
            Ok(s) => text_at(bytes@, len_at as int, modulus as nat) == Ok::<Seq<u8>, Halt>(
                encode_utf8(s@),
            ),
            Err(h) => text_at(bytes@, len_at as int, modulus as nat) == Err::<Seq<u8>, Halt>(h),
        },
{
    let len = match read_u8(bytes, len_at) {
        Some(b) => b % modulus,
        None => return Err(Halt::InputExhausted),
    };
    if len_at >= bytes.len() || (len as usize) > bytes.len() - len_at - 1 {
        return Err(Halt::InputExhausted);
    }
    match _to_str(bytes, len_at + 1, len_at + 1 + len as usize) {
        Some(s) => {
            let owned = s.to_string();
            proof {
                vstd::string::to_string_from_display_ensures_for_str(s, owned);
            }
            Ok(owned)
        },
        None => Err(Halt::Exit),
    }
}


/// A clone of a text-carrying element: the text described by `text_at`
/// (length modulo 17) in the selected half, the selector keyed by the length
/// of the element's own text.
pub open spec fn cloned_text(first: Seq<u8>, second: Seq<u8>, key_at: int, len_at: int, len: nat) -> Result<
    Seq<u8>,
    Halt,
> {
    match selected_half(first, key_at, len) {
        Err(h) => Err(h),
        Ok(half) => text_at(half_bytes(half, first, second), len_at, 17),
    }
}

/// `Clone` of a text-carrying element (see `cloned_text`).
pub fn clone_text(first: &[u8], second: &[u8], key_at: usize, len_at: usize, text: &str) -> (r: Result<String, Halt>)
    ensures
        match r {
            Ok(s) => cloned_text(first@, second@, key_at as int, len_at as int, text.len() as nat)
                == Ok::<Seq<u8>, Halt>(encode_utf8(s@)),
            Err(h) => cloned_text(first@, second@, key_at as int, len_at as int, text.len() as nat)
                == Err::<Seq<u8>, Halt>(h),
        },
{
    let half = match select_half(first, key_at, text.len()) {
        Ok(h) => h,
        Err(e) => return Err(e),
    };
    read_text(half_of(half, first, second), len_at, 17)
}

/// Whether the byte at `at` asks for a deliberate panic: it is a multiple of
/// `modulus`.
pub open spec fn guarded(bytes: Seq<u8>, at: int, modulus: nat) -> Result<(), Halt> {
    if !fits(bytes, at, 1) {
        Err(Halt::InputExhausted)
    } else if bytes[at] as nat % modulus == 0 {
        Err(Halt::Intentional)
    } else {
        Ok(())
    }
}

/// Stops as `guarded` says.
pub fn guard(bytes: &[u8], at: usize, modulus: u8) -> (r: Result<(), Halt>)
    requires
        modulus > 0,
    ensures
        r == guarded(bytes@, at as int, modulus as nat),
{
    match read_u8(bytes, at) {
        None => Err(Halt::InputExhausted),
        Some(b) => if b % modulus == 0 {
            Err(Halt::Intentional)
        } else {
            Ok(())
        },
    }
}

/// A callback that panics when the byte at `guard_at` is a multiple of
/// `modulus` and otherwise answers the parity of the byte at `bool_at`.
pub open spec fn guarded_parity(bytes: Seq<u8>, guard_at: int, modulus: nat, bool_at: int) -> Result<
    bool,
    Halt,
> {
    match guarded(bytes, guard_at, modulus) {
        Err(h) => Err(h),
        Ok(_) => if !fits(bytes, bool_at, 1) {
            Err(Halt::InputExhausted)
        } else {
            Ok(bytes[bool_at] % 2 == 0)
        },
    }
}

/// The callback of `guarded_parity`.
pub fn guarded_bool(bytes: &[u8], guard_at: usize, modulus: u8, bool_at: usize) -> (r: Result<bool, Halt>)
    requires
        modulus > 0,
    ensures
        r == guarded_parity(bytes@, guard_at as int, modulus as nat, bool_at as int),
{
    match guard(bytes, guard_at, modulus) {
        Err(e) => Err(e),
        Ok(()) => if bool_at < bytes.len() {
            Ok(_to_bool(bytes, bool_at))
        } else {
            Err(Halt::InputExhausted)
        },
    }
}

/// A callback that panics when the byte at `guard_at` is a multiple of
/// `modulus` and otherwise answers `true`.
pub fn guarded_true(bytes: &[u8], guard_at: usize, modulus: u8) -> (r: Result<bool, Halt>)
    requires
        modulus > 0,
    ensures
        match guarded(bytes@, guard_at as int, modulus as nat) {
            Err(h) => r == Err::<bool, Halt>(h),
            Ok(_) => r == Ok::<bool, Halt>(true),
        },
{
    match guard(bytes, guard_at, modulus) {
        Err(e) => Err(e),
        Ok(()) => Ok(true),
    }
}

/// A maker of text that panics when the byte at `guard_at` is a multiple of
/// `modulus` and otherwise reads the text described by `text_at`.
pub open spec fn guarded_text_of(bytes: Seq<u8>, guard_at: int, modulus: nat, len_at: int, len_mod: nat) -> Result<
    Seq<u8>,
    Halt,
> {
    match guarded(bytes, guard_at, modulus) {
        Err(h) => Err(h),
        Ok(_) => text_at(bytes, len_at, len_mod),
    }
}

/// The maker of text of `guarded_text_of`.
pub fn guarded_text(bytes: &[u8], guard_at: usize, modulus: u8, len_at: usize, len_mod: u8) -> (r: Result<String, Halt>)
    requires
        modulus > 0,
        len_mod > 0,
    ensures
        match r {
            Ok(s) => guarded_text_of(bytes@, guard_at as int, modulus as nat, len_at as int, len_mod as nat)
                == Ok::<Seq<u8>, Halt>(encode_utf8(s@)),
            Err(h) => guarded_text_of(bytes@, guard_at as int, modulus as nat, len_at as int, len_mod as nat)
                == Err::<Seq<u8>, Halt>(h),
        },
{
    match guard(bytes, guard_at, modulus) {
        Err(e) => Err(e),
        Ok(()) => read_text(bytes, len_at, len_mod),
    }
}

} // verus!
