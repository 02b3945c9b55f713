use vstd::prelude::*;

use crate::error::GrubError;

verus! {

/// The UEFI fallback loader directory, `BOOT`, which is never the vendor's.
pub open spec fn fallback_name() -> Seq<u8> {
    seq![66u8, 79u8, 79u8, 84u8]
}

/// An entry of the EFI directory, with whether it is a directory.
pub struct EfiEntry {
    pub name: Vec<u8>,
    pub is_dir: bool,
}

/// An entry that the locator may pick.
pub open spec fn is_vendor_entry(e: EfiEntry) -> bool {
    e.name@ != fallback_name() && e.is_dir
}

/// Whether the name is exactly `BOOT`.
pub fn is_fallback_name(name: &Vec<u8>) -> (r: bool)
    ensures
        r == (name@ == fallback_name()),
{
    let r = name.len() == 4 && name[0] == 66u8 && name[1] == 79u8 && name[2] == 79u8 && name[3]
        == 84u8;
    proof {
        if r {
            assert(name@ =~= fallback_name());
        } else if name@ == fallback_name() {
            assert(name@[1] == fallback_name()[1]);
        }
    }
    r
}

/// The first index at or after `from` whose name is not `BOOT`: the next
/// entry whose kind the locator has to look at.
pub fn next_vendor_candidate(names: &Vec<Vec<u8>>, from: usize) -> (r: Option<usize>)
    ensures
        r matches Some(i) ==> from <= i < names.len() && names@[i as int]@ != fallback_name()
            && forall|j: int| from <= j < i ==> (#[trigger] names@[j])@ == fallback_name(),
        r is None ==> forall|j: int|
            from <= j < names.len() ==> (#[trigger] names@[j])@ == fallback_name(),
{
    let mut i: usize = from;
    while i < names.len()
        invariant
            from <= i,
            forall|j: int| from <= j < i && j < names.len() ==> (#[trigger] names@[j])@
                == fallback_name(),
        decreases names.len() - i,
    {
        if !is_fallback_name(&names[i]) {
            return Some(i);
        }
        i = i + 1;
    }
    None
}

/// The EFI Vendor Locator: the name of the first entry, in listing order,
/// that is a directory and is not `BOOT`.
pub fn find_efi_vendordir(entries: &Vec<EfiEntry>) -> (r: Result<Vec<u8>, GrubError>)
    ensures
        r is Ok <==> exists|i: int| 0 <= i < entries.len() && is_vendor_entry(#[trigger] entries@[i]),
        r matches Ok(n) ==> exists|i: int|
            0 <= i < entries.len() && is_vendor_entry(#[trigger] entries@[i]) && n@
                == entries@[i].name@ && forall|j: int| 0 <= j < i ==> !is_vendor_entry(entries@[j]),
        r matches Err(e) ==> e == GrubError::NotFound,
{
    let mut i: usize = 0;
    while i < entries.len()
        invariant
            i <= entries.len(),
            forall|j: int| 0 <= j < i ==> !is_vendor_entry(#[trigger] entries@[j]),
        decreases entries.len() - i,
    {
        let e = &entries[i];
        if !is_fallback_name(&e.name) && e.is_dir {
            let n = e.name.clone();
            assert(n@ =~= entries@[i as int].name@);
            return Ok(n);
        }
        i = i + 1;
    }
    Err(GrubError::NotFound)
}

} // verus!
