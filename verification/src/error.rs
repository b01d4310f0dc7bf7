//! Errors of module lookup and code patching.

use vstd::prelude::*;
use crate::text::{
    ascii_chars, ascii_string, push_c_str_debug, push_str, push_upper_hex, spec_c_str_debug,
    spec_upper_hex,
};

verus! {

/// Why a module could not be found or a patch could not be toggled.
///
/// Names are the bytes of the C string, without the terminating nul.
#[derive(Debug, Clone, PartialEq, Eq)]
pub enum Error {
    /// The loader knows no module of this name.
    GetModuleHandle { name: Vec<u8> },
    /// The loader could not describe the module's image.
    GetModuleInfo { name: Vec<u8> },
    /// The module exports no procedure of this name.
    GetProcAddress { name: Vec<u8> },
    /// A patch was enabled while enabled, or disabled while disabled.
    Patch { module_name: Vec<u8>, module_base: usize, offset: usize },
}

/// The mathematical content of an [`Error`].
pub enum ErrorView {
    GetModuleHandle { name: Seq<u8> },
    GetModuleInfo { name: Seq<u8> },
    GetProcAddress { name: Seq<u8> },
    Patch { module_name: Seq<u8>, module_base: usize, offset: usize },
}

impl View for Error {
    type V = ErrorView;

    open spec fn view(&self) -> ErrorView {
        match self {
            Error::GetModuleHandle { name } => ErrorView::GetModuleHandle { name: name@ },
            Error::GetModuleInfo { name } => ErrorView::GetModuleInfo { name: name@ },
            Error::GetProcAddress { name } => ErrorView::GetProcAddress { name: name@ },
            Error::Patch { module_name, module_base, offset } => ErrorView::Patch {
                module_name: module_name@,
                module_base: *module_base,
                offset: *offset,
            },
        }
    }
}

/// Copies a byte string, keeping its contents.
pub(crate) fn copy_bytes(bytes: &Vec<u8>) -> (r: Vec<u8>)
    ensures
        r@ == bytes@,
{
    let r = bytes.clone();
    assert(r@ =~= bytes@);
    r
}

/// The message that describes an error.
pub open spec fn spec_message(e: ErrorView) -> Seq<char> {
    match e {
        ErrorView::GetModuleHandle { name } => "Failed to get module handle for '"@
            + spec_c_str_debug(name) + "'"@,
        ErrorView::GetModuleInfo { name } => "Failed to get module info for '"@ + spec_c_str_debug(
            name,
        ) + "'"@,
        ErrorView::GetProcAddress { name } => "Failed to get proc address '"@ + spec_c_str_debug(
            name,
        ) + "'"@,
        ErrorView::Patch { module_name, module_base, offset } => "Failed to apply patch at "@
            + spec_c_str_debug(module_name) + " + 0x"@ + spec_upper_hex(offset as nat) + " = 0x"@
            + spec_upper_hex((module_base + offset) as nat),
    }
}

impl Error {
    /// The address that a patch error is about: the module's base plus the offset.
    pub fn patch_address(&self) -> (r: Option<usize>)
        ensures
            r == (match self@ {
                ErrorView::Patch { module_base, offset, .. } => if module_base + offset
                    <= usize::MAX {
                    Some((module_base + offset) as usize)
                } else {
                    None
                },
                _ => None,
            }),
    {
        match self {
            Error::Patch { module_base, offset, .. } => module_base.checked_add(*offset),
            _ => None,
        }
    }

    /// The message that describes the error. Names are shown as C strings
    /// are for debugging; numbers in upper-case hexadecimal.
    pub fn message(&self) -> (r: String)
        requires
            self@ matches ErrorView::Patch { module_base, offset, .. } ==> module_base + offset
                <= usize::MAX,
        ensures
            r@ == spec_message(self@),
    {
        let mut out: Vec<u8> = Vec::new();
        proof {
            reveal_strlit("Failed to get module handle for '");
            reveal_strlit("Failed to get module info for '");
            reveal_strlit("Failed to get proc address '");
            reveal_strlit("Failed to apply patch at ");
            reveal_strlit("'");
            reveal_strlit(" + 0x");
            reveal_strlit(" = 0x");
            assert(ascii_chars(out@) =~= Seq::<char>::empty());
        }
        match self {
            Error::GetModuleHandle { name } => {
                push_str(&mut out, "Failed to get module handle for '");
                push_c_str_debug(&mut out, name);
                push_str(&mut out, "'");
            },
            Error::GetModuleInfo { name } => {
                push_str(&mut out, "Failed to get module info for '");
                push_c_str_debug(&mut out, name);
                push_str(&mut out, "'");
            },
            Error::GetProcAddress { name } => {
                push_str(&mut out, "Failed to get proc address '");
                push_c_str_debug(&mut out, name);
                push_str(&mut out, "'");
            },
            Error::Patch { module_name, module_base, offset } => {
                push_str(&mut out, "Failed to apply patch at ");
                push_c_str_debug(&mut out, module_name);
                push_str(&mut out, " + 0x");
                push_upper_hex(&mut out, *offset);
                push_str(&mut out, " = 0x");
                push_upper_hex(&mut out, *module_base + *offset);
            },
        }
        proof {
            assert(ascii_chars(out@) =~= spec_message(self@));
        }
        ascii_string(out)
    }
}

} // verus!
