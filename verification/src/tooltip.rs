//! The tray icon's tooltip: its texts, and the fixed buffer of UTF-16 code
//! units, NUL-terminated, that Windows takes it in.
use vstd::prelude::*;
use crate::text::{chars_of, concat};
use crate::utf16::{encode_utf16, utf16_of};
use crate::number::{decimal, decimal_exec};

verus! {

/// The size of the tooltip buffer, in UTF-16 code units.
pub const MAX_SZTIP_LEN: usize = 128;

/// The code unit of `.`.
pub open spec fn dot_unit() -> u16 {
    46
}

/// The tooltip buffer for a text of the given code units: a text that fits
/// with room for the closing NUL is kept whole and padded with NULs; a
/// longer one keeps its first 125 units, followed by `..` and a NUL.
pub open spec fn tooltip_units(units: Seq<u16>) -> Seq<u16> {
    if units.len() <= MAX_SZTIP_LEN - 1 {
        units + Seq::new((MAX_SZTIP_LEN - units.len()) as nat, |i: int| 0u16)
    } else {
        units.take(MAX_SZTIP_LEN - 3) + seq![dot_unit(), dot_unit(), 0u16]
    }
}

/// The tooltip buffer for a text.
pub open spec fn tooltip_spec(text: Seq<char>) -> Seq<u16> {
    tooltip_units(utf16_of(text))
}

/// Fills the tooltip buffer for a text.
pub fn tooltip(text: &[char]) -> (res: Vec<u16>)
    ensures
        res@ == tooltip_spec(text@),
{
    let units = encode_utf16(text);
    let mut res: Vec<u16> = Vec::new();
    if units.len() <= MAX_SZTIP_LEN - 1 {
        res.extend_from_slice(units.as_slice());
        while res.len() < MAX_SZTIP_LEN
            invariant
                units@.len() <= res@.len() <= MAX_SZTIP_LEN,
                res@ == units@ + Seq::new((res@.len() - units@.len()) as nat, |i: int| 0u16),
            decreases MAX_SZTIP_LEN - res@.len(),
        {
            res.push(0);
            assert(res@ =~= units@ + Seq::new((res@.len() - units@.len()) as nat, |i: int| 0u16));
        }
    } else {
        let mut i: usize = 0;
        while i < MAX_SZTIP_LEN - 3
            invariant
                i <= MAX_SZTIP_LEN - 3,
                units@.len() >= MAX_SZTIP_LEN,
                res@ == units@.take(i as int),
            decreases MAX_SZTIP_LEN - 3 - i,
        {
            res.push(units[i]);
            assert(units@.take(i + 1) == units@.take(i as int).push(units@[i as int]));
            i = i + 1;
        }
        res.push(46);
        res.push(46);
        res.push(0);
        assert(res@ =~= units@.take(MAX_SZTIP_LEN - 3) + seq![dot_unit(), dot_unit(), 0u16]);
    }
    res
}

/// The tooltip buffer is always full size and ends in a NUL; a text that
/// fits is kept whole and followed by NULs only; a longer one keeps its
/// first 125 units and shows `..` after them.
pub proof fn lemma_tooltip_units(units: Seq<u16>)
    ensures
        tooltip_units(units).len() == MAX_SZTIP_LEN,
        tooltip_units(units)[MAX_SZTIP_LEN - 1] == 0,
        units.len() < MAX_SZTIP_LEN ==> tooltip_units(units).take(units.len() as int) == units
            && forall|i: int|
            units.len() <= i < MAX_SZTIP_LEN ==> #[trigger] tooltip_units(units)[i] == 0,
        units.len() >= MAX_SZTIP_LEN ==> tooltip_units(units).take(MAX_SZTIP_LEN - 3)
            == units.take(MAX_SZTIP_LEN - 3) && tooltip_units(units)[MAX_SZTIP_LEN - 3] == dot_unit()
            && tooltip_units(units)[MAX_SZTIP_LEN - 2] == dot_unit(),
{
    if units.len() < MAX_SZTIP_LEN {
        assert(tooltip_units(units).take(units.len() as int) =~= units);
    } else {
        assert(tooltip_units(units).take(MAX_SZTIP_LEN - 3) =~= units.take(MAX_SZTIP_LEN - 3));
    }
}

/// The tooltip buffer of any text is full size and ends in a NUL.
pub proof fn lemma_tooltip_spec(text: Seq<char>)
    ensures
        tooltip_spec(text).len() == MAX_SZTIP_LEN,
        tooltip_spec(text)[MAX_SZTIP_LEN - 1] == 0,
{
    lemma_tooltip_units(utf16_of(text));
}

pub open spec fn running_text() -> Seq<char> {
    "Basic Bitch Backup is running in the background"@
}

pub open spec fn finished_text() -> Seq<char> {
    "Basic Bitch Backup has completed successfully"@
}

/// The tooltip while the `number`-th of `total` folders is copied.
pub open spec fn progress_text(number: nat, total: nat, locale: Seq<char>) -> Seq<char> {
    "Backing up "@ + decimal(number) + "/"@ + decimal(total) + ": "@ + locale
}

/// The tooltip text while the driver runs.
pub fn running_text_exec() -> (res: Vec<char>)
    ensures
        res@ == running_text(),
{
    chars_of("Basic Bitch Backup is running in the background")
}

/// The tooltip text once every folder is backed up.
pub fn finished_text_exec() -> (res: Vec<char>)
    ensures
        res@ == finished_text(),
{
    chars_of("Basic Bitch Backup has completed successfully")
}

/// The tooltip text while a folder is copied.
pub fn progress_text_exec(number: u64, total: u64, locale: &[char]) -> (res: Vec<char>)
    ensures
        res@ == progress_text(number as nat, total as nat, locale@),
{
    let head = chars_of("Backing up ");
    let n = decimal_exec(number);
    let slash = chars_of("/");
    let t = decimal_exec(total);
    let colon = chars_of(": ");
    let res = concat(head.as_slice(), n.as_slice());
    let res = concat(res.as_slice(), slash.as_slice());
    let res = concat(res.as_slice(), t.as_slice());
    let res = concat(res.as_slice(), colon.as_slice());
    concat(res.as_slice(), locale)
}

} // verus!
