use vstd::prelude::*;

use crate::compose::{compose_config, composed};
use crate::efi::{fallback_name, next_vendor_candidate};
use crate::error::GrubError;
use crate::fragments::{
    all_text, collect_fragments, is_encoding_error_of, names_view, ordered_names, selected_fragments,
};

verus! {

/// Where an installation stands: which outside step it waits for.
#[derive(Debug, Clone, Copy, PartialEq, Eq, Structural)]
pub enum Phase {
    Start,
    Preamble,
    Listing,
    Copying,
    Postamble,
    Writing,
    EfiOpening,
    EfiListing,
    EfiInspecting,
    EfiCopying,
    Done,
}

/// The outside step that the installation asks for next.
#[derive(Debug, Clone, PartialEq, Eq)]
pub enum Action {
    /// Read the pre-amble template.
    ReadPreamble,
    /// List the drop-in directory.
    ListDropins,
    /// Copy this fragment from the drop-in directory to `grub2/` of the boot directory.
    CopyFragment(Vec<u8>),
    /// Read the post-amble template.
    ReadPostamble,
    /// Write these bytes as `grub2/grub.cfg` of the boot directory, mode 0644.
    WriteConfig(Vec<u8>),
    /// Open the optional EFI directory `boot/efi/EFI`.
    OpenEfiDir,
    /// List the EFI directory.
    ListEfiDir,
    /// Tell whether this entry of the EFI directory is a directory.
    InspectEfiEntry(Vec<u8>),
    /// Copy the EFI template to `grub.cfg` inside this vendor directory.
    CopyEfiConfig(Vec<u8>),
    /// The installation is complete.
    Finished,
    /// The installation stopped.
    Failed(GrubError),
}

/// The decisions of one installation of the static GRUB configuration.
pub struct Installer {
    pub efi: bool,
    pub phase: Phase,
    pub pre: Vec<u8>,
    pub fragments: Vec<Vec<u8>>,
    pub copied: usize,
    pub efi_names: Vec<Vec<u8>>,
    pub efi_pos: usize,
}

impl Installer {
    pub open spec fn wf(&self) -> bool {
        &&& self.copied <= self.fragments.len()
        &&& self.phase == Phase::Copying ==> self.copied < self.fragments.len()
        &&& (self.phase == Phase::Start || self.phase == Phase::Preamble || self.phase
            == Phase::Listing) ==> self.copied == 0 && self.fragments.len() == 0
        &&& (self.phase == Phase::Postamble || self.phase == Phase::Writing) ==> self.copied
            == self.fragments.len()
        &&& !self.efi ==> !self.in_efi()
        &&& (self.phase == Phase::EfiInspecting || self.phase == Phase::EfiCopying) ==> (
        self.efi_pos < self.efi_names.len() && self.efi_names@[self.efi_pos as int]@
            != fallback_name())
    }

    /// The installation is at one of the EFI steps.
    pub open spec fn in_efi(&self) -> bool {
        self.phase == Phase::EfiOpening || self.phase == Phase::EfiListing || self.phase
            == Phase::EfiInspecting || self.phase == Phase::EfiCopying
    }

    /// A new installation; `efi` tells whether the EFI configuration is wanted.
    pub fn new(efi: bool) -> (r: Self)
        ensures
            r.wf(),
            r.efi == efi,
            r.phase == Phase::Start,
    {
        Installer {
            efi,
            phase: Phase::Start,
            pre: Vec::new(),
            fragments: Vec::new(),
            copied: 0,
            efi_names: Vec::new(),
            efi_pos: 0,
        }
    }

    /// The first step: the pre-amble is read before anything else happens.
    pub fn start(&mut self) -> (r: Action)
        requires
            old(self).wf(),
            old(self).phase == Phase::Start,
        ensures
            final(self).wf(),
            final(self).efi == old(self).efi,
            final(self).phase == Phase::Preamble,
            r == Action::ReadPreamble,
    {
        self.phase = Phase::Preamble;
        Action::ReadPreamble
    }

    /// The pre-amble was read; the drop-in directory is listed next.
    pub fn on_preamble(&mut self, text: Vec<u8>) -> (r: Action)
        requires
            old(self).wf(),
            old(self).phase == Phase::Preamble,
        ensures
            final(self).wf(),
            final(self).efi == old(self).efi,
            final(self).phase == Phase::Listing,
            final(self).pre@ == text@,
            r == Action::ListDropins,
    {
        self.pre = text;
        self.phase = Phase::Listing;
        Action::ListDropins
    }

    /// The drop-in directory was listed: the fragments are selected and the
    /// first one is copied, or, with none, the post-amble is read.
    pub fn on_dropins(&mut self, names: Vec<Vec<u8>>) -> (r: Action)
        requires
            old(self).wf(),
            old(self).phase == Phase::Listing,
        ensures
            final(self).wf(),
            final(self).efi == old(self).efi,
            final(self).pre == old(self).pre,
            !all_text(ordered_names(names_view(names@))) ==> final(self).phase == Phase::Done && (
            r matches Action::Failed(e) && is_encoding_error_of(e, ordered_names(names_view(names@)))),
            all_text(ordered_names(names_view(names@))) ==> {
                &&& names_view(final(self).fragments@) == selected_fragments(names_view(names@))
                &&& final(self).copied == 0
                &&& final(self).fragments.len() == 0 ==> final(self).phase == Phase::Postamble
                    && r == Action::ReadPostamble
                &&& final(self).fragments.len() > 0 ==> final(self).phase == Phase::Copying && (
                r matches Action::CopyFragment(n) && n@ == final(self).fragments@[0]@)
            },
    {
        match collect_fragments(names) {
            Err(e) => {
                self.phase = Phase::Done;
                Action::Failed(e)
            },
            Ok(f) => {
                self.fragments = f;
                self.copied = 0;
                if self.fragments.len() == 0 {
                    self.phase = Phase::Postamble;
                    Action::ReadPostamble
                } else {
                    self.phase = Phase::Copying;
                    let n = self.fragments[0].clone();
                    assert(n@ =~= self.fragments@[0]@);
                    Action::CopyFragment(n)
                }
            },
        }
    }

    /// A fragment was copied: the next one is copied, or, after the last,
    /// the post-amble is read.
    pub fn on_copied(&mut self) -> (r: Action)
        requires
            old(self).wf(),
            old(self).phase == Phase::Copying,
        ensures
            final(self).wf(),
            final(self).efi == old(self).efi,
            final(self).pre == old(self).pre,
            final(self).fragments == old(self).fragments,
            final(self).copied == old(self).copied + 1,
            final(self).copied < final(self).fragments.len() ==> final(self).phase
                == Phase::Copying && (r matches Action::CopyFragment(n) && n@
                == final(self).fragments@[final(self).copied as int]@),
            final(self).copied == final(self).fragments.len() ==> final(self).phase
                == Phase::Postamble && r == Action::ReadPostamble,
    {
        self.copied = self.copied + 1;
        if self.copied < self.fragments.len() {
            let n = self.fragments[self.copied].clone();
            assert(n@ =~= self.fragments@[self.copied as int]@);
            Action::CopyFragment(n)
        } else {
            self.phase = Phase::Postamble;
            Action::ReadPostamble
        }
    }

    /// The post-amble was read, every fragment having been copied: the
    /// composed text is written.
    pub fn on_postamble(&mut self, text: Vec<u8>) -> (r: Action)
        requires
            old(self).wf(),
            old(self).phase == Phase::Postamble,
        ensures
            final(self).wf(),
            final(self).efi == old(self).efi,
            final(self).fragments == old(self).fragments,
            final(self).copied == final(self).fragments.len(),
            final(self).phase == Phase::Writing,
            r matches Action::WriteConfig(c) && c@ == composed(
                old(self).pre@,
                names_view(old(self).fragments@),
                text@,
            ),
    {
        let config = compose_config(&self.pre, &self.fragments, &text);
        self.phase = Phase::Writing;
        Action::WriteConfig(config)
    }

    /// `grub.cfg` was written: without EFI the installation is complete.
    pub fn on_written(&mut self) -> (r: Action)
        requires
            old(self).wf(),
            old(self).phase == Phase::Writing,
        ensures
            final(self).wf(),
            final(self).efi == old(self).efi,
            !old(self).efi ==> final(self).phase == Phase::Done && r == Action::Finished,
            old(self).efi ==> final(self).phase == Phase::EfiOpening && r == Action::OpenEfiDir,
    {
        if self.efi {
            self.phase = Phase::EfiOpening;
            Action::OpenEfiDir
        } else {
            self.phase = Phase::Done;
            Action::Finished
        }
    }

    /// The EFI directory was opened, or found absent, which is no error.
    pub fn on_efi_dir(&mut self, present: bool) -> (r: Action)
        requires
            old(self).wf(),
            old(self).phase == Phase::EfiOpening,
        ensures
            final(self).wf(),
            final(self).efi == old(self).efi,
            present ==> final(self).phase == Phase::EfiListing && r == Action::ListEfiDir,
            !present ==> final(self).phase == Phase::Done && r == Action::Finished,
    {
        if present {
            self.phase = Phase::EfiListing;
            Action::ListEfiDir
        } else {
            self.phase = Phase::Done;
            Action::Finished
        }
    }

    /// Moves the scan of the EFI directory to the first entry at or after
    /// `from` not named `BOOT`, or ends it.
    fn scan_efi_from(&mut self, from: usize) -> (r: Action)
        requires
            old(self).wf(),
            old(self).efi,
            old(self).in_efi(),
        ensures
            final(self).wf(),
            final(self).efi == old(self).efi,
            final(self).efi_names == old(self).efi_names,
            match next_candidate_spec(old(self).efi_names@, from as int) {
                Some(i) => final(self).phase == Phase::EfiInspecting && final(self).efi_pos == i
                    && (r matches Action::InspectEfiEntry(n) && n@ == old(
                    self,
                ).efi_names@[i as int]@),
                None => final(self).phase == Phase::Done && r == Action::Failed(GrubError::NotFound),
            },
    {
        match next_vendor_candidate(&self.efi_names, from) {
            Some(i) => {
                self.efi_pos = i;
                self.phase = Phase::EfiInspecting;
                let n = self.efi_names[i].clone();
                assert(n@ =~= self.efi_names@[i as int]@);
                proof {
                    lemma_next_candidate(self.efi_names@, from as int, i as int);
                }
                Action::InspectEfiEntry(n)
            },
            None => {
                proof {
                    lemma_no_candidate(self.efi_names@, from as int);
                }
                self.phase = Phase::Done;
                Action::Failed(GrubError::NotFound)
            },
        }
    }

    /// The EFI directory was listed: the first entry not named `BOOT` is
    /// looked at; with none, no vendor directory exists.
    pub fn on_efi_listing(&mut self, names: Vec<Vec<u8>>) -> (r: Action)
        requires
            old(self).wf(),
            old(self).phase == Phase::EfiListing,
        ensures
            final(self).wf(),
            final(self).efi == old(self).efi,
            final(self).efi_names@ == names@,
            match next_candidate_spec(names@, 0) {
                Some(i) => final(self).phase == Phase::EfiInspecting && final(self).efi_pos == i
                    && (r matches Action::InspectEfiEntry(n) && n@ == names@[i as int]@),
                None => final(self).phase == Phase::Done && r == Action::Failed(GrubError::NotFound),
            },
    {
        self.efi_names = names;
        self.scan_efi_from(0)
    }

    /// The entry under inspection is, or is not, a directory: the first
    /// directory wins; otherwise the scan goes on after it.
    pub fn on_efi_entry_kind(&mut self, is_dir: bool) -> (r: Action)
        requires
            old(self).wf(),
            old(self).phase == Phase::EfiInspecting,
        ensures
            final(self).wf(),
            final(self).efi == old(self).efi,
            final(self).efi_names == old(self).efi_names,
            is_dir ==> final(self).phase == Phase::EfiCopying && (r matches Action::CopyEfiConfig(
                n,
            ) && n@ == old(self).efi_names@[old(self).efi_pos as int]@),
            !is_dir ==> match next_candidate_spec(old(self).efi_names@, old(self).efi_pos + 1) {
                Some(i) => final(self).phase == Phase::EfiInspecting && final(self).efi_pos == i
                    && (r matches Action::InspectEfiEntry(n) && n@ == old(
                    self,
                ).efi_names@[i as int]@),
                None => final(self).phase == Phase::Done && r == Action::Failed(GrubError::NotFound),
            },
    {
        if is_dir {
            self.phase = Phase::EfiCopying;
            let n = self.efi_names[self.efi_pos].clone();
            assert(n@ =~= self.efi_names@[self.efi_pos as int]@);
            Action::CopyEfiConfig(n)
        } else {
            let from = self.efi_pos + 1;
            self.scan_efi_from(from)
        }
    }

    /// The EFI configuration was copied: the installation is complete.
    pub fn on_efi_copied(&mut self) -> (r: Action)
        requires
            old(self).wf(),
            old(self).phase == Phase::EfiCopying,
        ensures
            final(self).wf(),
            final(self).efi == old(self).efi,
            final(self).phase == Phase::Done,
            r == Action::Finished,
    {
        self.phase = Phase::Done;
        Action::Finished
    }

    /// An outside step failed: the installation stops there, and no later
    /// step is asked for.
    pub fn on_failure(&mut self, e: GrubError) -> (r: Action)
        requires
            old(self).wf(),
            old(self).phase != Phase::Start,
            old(self).phase != Phase::Done,
        ensures
            final(self).wf(),
            final(self).efi == old(self).efi,
            final(self).phase == Phase::Done,
            final(self).copied == old(self).copied,
            r == Action::Failed(e),
    {
        self.phase = Phase::Done;
        Action::Failed(e)
    }
}

/// Until the pre-amble has been read, no fragment has been selected or
/// copied: a failure to read it stops the installation (see `on_failure`)
/// before any copy and before `grub.cfg` is written.
pub proof fn lemma_nothing_copied_before_preamble(s: Installer)
    requires
        s.wf(),
        s.phase == Phase::Start || s.phase == Phase::Preamble,
    ensures
        s.copied == 0,
        s.fragments.len() == 0,
{
}

/// When `grub.cfg` is written, every fragment that it references has been
/// copied.
pub proof fn lemma_all_copied_before_write(s: Installer)
    requires
        s.wf(),
        s.phase == Phase::Writing,
    ensures
        s.copied == s.fragments.len(),
{
}

/// An installation without EFI never reaches an EFI step.
pub proof fn lemma_no_efi_steps(s: Installer)
    requires
        s.wf(),
        !s.efi,
    ensures
        !s.in_efi(),
{
}

/// The first index at or after `from` whose name is not `BOOT`.
pub open spec fn next_candidate_spec(names: Seq<Vec<u8>>, from: int) -> Option<int>
    decreases names.len() - from,
{
    if from < 0 || from >= names.len() {
        None
    } else if names[from]@ != fallback_name() {
        Some(from)
    } else {
        next_candidate_spec(names, from + 1)
    }
}

proof fn lemma_next_candidate(names: Seq<Vec<u8>>, from: int, i: int)
    requires
        0 <= from <= i < names.len(),
        names[i]@ != fallback_name(),
        forall|j: int| from <= j < i ==> (#[trigger] names[j])@ == fallback_name(),
    ensures
        next_candidate_spec(names, from) == Some(i),
    decreases i - from,
{
    if from < i {
        lemma_next_candidate(names, from + 1, i);
    }
}

proof fn lemma_no_candidate(names: Seq<Vec<u8>>, from: int)
    requires
        0 <= from,
        forall|j: int| from <= j < names.len() ==> (#[trigger] names[j])@ == fallback_name(),
    ensures
        next_candidate_spec(names, from) is None,
    decreases names.len() - from,
{
    if from < names.len() {
        lemma_no_candidate(names, from + 1);
    }
}

} // verus!
