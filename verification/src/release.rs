//! The kernel release stamp: decoding `MAJOR.MINOR.PATCH` from the
//! leading part of the OS release string, up to the first dash, into
//! the packed code the kernel compares program version stamps against.

use vstd::prelude::*;

use crate::error::LoadError;
use crate::wire::{
    all_ascii, all_digits, byte_pos, check_ascii, dec_val, find_byte, lemma_byte_pos_bounds,
    parse_u32_dec, string_from_ascii,
};

verus! {

/// The packed release code: major in the high half, then minor, then
/// patch, as the kernel stamps it.
pub open spec fn pack_release(major: u32, minor: u32, patch: u32) -> u32 {
    (major << 16) | (minor << 8) | patch
}

/// The release code a release string names: the dotted
/// `MAJOR.MINOR.PATCH` before the first dash, each part a decimal
/// number that fits 32 bits; nothing when the string is not of that
/// shape.
pub open spec fn spec_release_code(b: Seq<u8>) -> Option<u32> {
    let core = b.subrange(0, byte_pos(b, 0, 0x2d));
    let p1 = byte_pos(core, 0, 0x2e);
    if p1 == core.len() {
        None
    } else {
        let c1 = core.subrange(0, p1);
        let p2 = byte_pos(core, p1 + 1, 0x2e);
        if p2 == core.len() {
            None
        } else {
            let c2 = core.subrange(p1 + 1, p2);
            let c3 = core.subrange(p2 + 1, core.len() as int);
            if c1.len() > 0 && all_digits(c1) && dec_val(c1) <= u32::MAX && c2.len() > 0
                && all_digits(c2) && dec_val(c2) <= u32::MAX && c3.len() > 0 && all_digits(c3)
                && dec_val(c3) <= u32::MAX {
                Some(
                    pack_release(dec_val(c1) as u32, dec_val(c2) as u32, dec_val(c3) as u32),
                )
            } else {
                None
            }
        }
    }
}

/// Decodes a release string such as `5.15.0-91-generic` into its packed
/// code; a string without a leading dotted triple of numbers is a
/// `KernelRelease` failure carrying the string.
pub fn parse_release(b: &[u8]) -> (r: Result<u32, LoadError>)
    ensures
        match r {
            Ok(v) => spec_release_code(b@) == Some(v),
            Err(LoadError::KernelRelease(_)) => spec_release_code(b@) is None,
            Err(_) => false,
        },
{
    let dash = find_byte(b, 0, 0x2d);
    proof {
        lemma_byte_pos_bounds(b@, 0, 0x2d);
    }
    let core = vstd::slice::slice_subrange(b, 0, dash);
    let p1 = find_byte(core, 0, 0x2e);
    proof {
        lemma_byte_pos_bounds(core@, 0, 0x2e);
    }
    if p1 == core.len() {
        return Err(LoadError::KernelRelease(release_text(b)));
    }
    let p2 = find_byte(core, p1 + 1, 0x2e);
    proof {
        lemma_byte_pos_bounds(core@, p1 + 1, 0x2e);
    }
    if p2 == core.len() {
        return Err(LoadError::KernelRelease(release_text(b)));
    }
    let c1 = vstd::slice::slice_subrange(core, 0, p1);
    let c2 = vstd::slice::slice_subrange(core, p1 + 1, p2);
    let c3 = vstd::slice::slice_subrange(core, p2 + 1, core.len());
    let major = match parse_u32_dec(c1) {
        Some(v) => v,
        None => {
            return Err(LoadError::KernelRelease(release_text(b)));
        },
    };
    let minor = match parse_u32_dec(c2) {
        Some(v) => v,
        None => {
            return Err(LoadError::KernelRelease(release_text(b)));
        },
    };
    let patch = match parse_u32_dec(c3) {
        Some(v) => v,
        None => {
            return Err(LoadError::KernelRelease(release_text(b)));
        },
    };
    Ok((major << 16) | (minor << 8) | patch)
}

/// The release string as text for the failure payload, when it is
/// plain ASCII; an empty text otherwise.
fn release_text(b: &[u8]) -> String {
    if check_ascii(b) {
        string_from_ascii(vstd::slice::slice_to_vec(b))
    } else {
        String::new()
    }
}

} // verus!
