//! The session context: the ordered collection of durable records, the
//! live-preview record, the export options and the histogram state, with
//! the selection and soft-delete operations over the collection.

use vstd::arithmetic::div_mod::{
    lemma_add_mod_noop, lemma_mod_add_multiples_vanish, lemma_small_mod,
};
use vstd::prelude::*;

use crate::export::{export_entries, export_photos, has_invalid_marked, zip_bytes, ExportError};
use crate::histogram::HistogramData;
use crate::record::MyImage;

verus! {

/// Which panel of the interface is active.
#[derive(Clone, Copy, Debug, PartialEq, Eq, Structural)]
pub enum UiTab {
    TakePhoto,
    Histogram,
    SavePhoto,
}

impl Default for UiTab {
    fn default() -> (r: Self)
        ensures
            r == UiTab::TakePhoto,
    {
        UiTab::TakePhoto
    }
}

/// The export options: which encodings to write and which record is
/// selected in the review panel.
pub struct SaveImageOptions {
    pub raw_png: bool,
    pub jpg: bool,
    pub png: bool,
    pub image_index: i32,
}

impl Default for SaveImageOptions {
    fn default() -> (r: Self)
        ensures
            !r.raw_png,
            r.jpg,
            !r.png,
            r.image_index == 0,
    {
        SaveImageOptions { raw_png: false, jpg: true, png: false, image_index: 0 }
    }
}

/// The explicitly owned session state: every operation works on this
/// context, never on ambient globals.
pub struct Session {
    pub ui_tab: UiTab,
    pub save_options: SaveImageOptions,
    pub histogram: HistogramData,
    /// The durable records, in capture order.
    pub photos: Vec<MyImage>,
    /// The live-preview record, overwritten on every capture cycle.
    pub photo: MyImage,
}

/// The session with only the selection index replaced.
pub open spec fn with_index(s: Session, idx: i32) -> Session {
    Session {
        save_options: SaveImageOptions { image_index: idx, ..s.save_options },
        ..s
    }
}

/// One forward step of the selection over `len` records.
pub open spec fn advance(idx: int, len: int) -> int {
    (idx + 1) % len
}

/// `n` forward steps of the selection.
pub open spec fn advance_n(idx: int, n: nat, len: int) -> int
    decreases n,
{
    if n == 0 {
        idx
    } else {
        advance(advance_n(idx, (n - 1) as nat, len), len)
    }
}

/// `n` forward steps land on `(idx + n) % len`.
proof fn lemma_advance_n_mod(idx: int, n: nat, len: int)
    requires
        len > 0,
        0 <= idx < len,
    ensures
        advance_n(idx, n, len) == (idx + n) % len,
    decreases n,
{
    if n == 0 {
        lemma_small_mod(idx as nat, len as nat);
    } else {
        lemma_advance_n_mod(idx, (n - 1) as nat, len);
        if len == 1 {
            assert(advance_n(idx, n, len) == (idx + n) % len);
        } else {
            lemma_small_mod(1nat, len as nat);
            lemma_add_mod_noop(idx + n - 1, 1, len);
        }
    }
}

/// Advancing the selection once per record returns to the record selected
/// at the start, for any collection with at least one record.
pub proof fn lemma_select_wrap_cycle(idx: int, len: int)
    requires
        len > 0,
        0 <= idx < len,
    ensures
        advance_n(idx, len as nat, len) == idx,
{
    lemma_advance_n_mod(idx, len as nat, len);
    lemma_mod_add_multiples_vanish(idx, len);
    lemma_small_mod(idx as nat, len as nat);
}

/// Removing record `i` shrinks the collection by exactly one, and a label
/// that no other record shares is absent afterwards.
pub proof fn lemma_confirm_delete_removes_label(photos: Seq<MyImage>, i: int)
    requires
        0 <= i < photos.len(),
        forall|j: int|
            0 <= j < photos.len() && j != i ==> (#[trigger] photos[j]).name@ != photos[i].name@,
    ensures
        photos.remove(i).len() == photos.len() - 1,
        forall|j: int|
            0 <= j < photos.remove(i).len() ==> (#[trigger] photos.remove(i)[j]).name@
                != photos[i].name@,
{
    assert forall|j: int| 0 <= j < photos.remove(i).len() implies (#[trigger] photos.remove(
        i,
    )[j]).name@ != photos[i].name@ by {
        if j < i {
            assert(photos.remove(i)[j] == photos[j]);
        } else {
            assert(photos.remove(i)[j] == photos[j + 1]);
        }
    }
}

impl Default for Session {
    fn default() -> (r: Self)
        ensures
            r.ui_tab == UiTab::TakePhoto,
            !r.save_options.raw_png,
            r.save_options.jpg,
            !r.save_options.png,
            r.save_options.image_index == 0,
            r.histogram.type_ == crate::histogram::HistogramType::Rgb,
            r.histogram.wf(),
            r.photos@.len() == 0,
            r.photo.valid(),
    {
        Session {
            ui_tab: UiTab::default(),
            save_options: SaveImageOptions::default(),
            histogram: HistogramData::default(),
            photos: Vec::new(),
            photo: MyImage::default(),
        }
    }
}

impl Session {
    /// Appends a captured record and points the selection at the record
    /// that was last before the append, as the capture flow does. The
    /// index is deliberately left one short (-1 when this is the first
    /// record): reads go through the clamp, which pins it into the live
    /// range.
    pub fn take_photo(&mut self, img: MyImage)
        requires
            old(self).photos@.len() < 0x7fff_ffff,
        ensures
            final(self).photos@ == old(self).photos@.push(img),
            final(self).save_options == (SaveImageOptions {
                image_index: (old(self).photos@.len() as int - 1) as i32,
                ..old(self).save_options
            }),
            final(self).ui_tab == old(self).ui_tab,
            final(self).histogram == old(self).histogram,
            final(self).photo == old(self).photo,
    {
        self.save_options.image_index = self.photos.len() as i32 - 1;
        self.photos.push(img);
    }

    /// Selects record `i`, wrapping modulo the live count; an empty
    /// collection has no valid index and the selection is left alone.
    pub fn select_index(&mut self, i: usize)
        requires
            old(self).photos@.len() < 0x8000_0000,
        ensures
            old(self).photos@.len() == 0 ==> *final(self) == *old(self),
            old(self).photos@.len() > 0 ==> *final(self) == with_index(
                *old(self),
                (i as int % old(self).photos@.len() as int) as i32,
            ),
    {
        if self.photos.len() > 0 {
            self.save_options.image_index = (i % self.photos.len()) as i32;
        }
    }

    /// Moves the selection one record forward, wrapping at the end.
    pub fn select_next(&mut self)
        requires
            0 < old(self).photos@.len() < 0x8000_0000,
            0 <= old(self).save_options.image_index < old(self).photos@.len(),
        ensures
            *final(self) == with_index(
                *old(self),
                advance(
                    old(self).save_options.image_index as int,
                    old(self).photos@.len() as int,
                ) as i32,
            ),
    {
        let len = self.photos.len() as i32;
        self.save_options.image_index = (self.save_options.image_index + 1) % len;
    }

    /// Moves the selection one record back, wrapping at the start.
    pub fn select_prev(&mut self)
        requires
            0 < old(self).photos@.len() < 0x8000_0000,
            0 <= old(self).save_options.image_index < old(self).photos@.len(),
        ensures
            *final(self) == with_index(
                *old(self),
                (
                if old(self).save_options.image_index == 0 {
                    old(self).photos@.len() as int - 1
                } else {
                    old(self).save_options.image_index as int - 1
                }) as i32,
            ),
    {
        if self.save_options.image_index == 0 {
            self.save_options.image_index = self.photos.len() as i32 - 1;
        } else {
            self.save_options.image_index = self.save_options.image_index - 1;
        }
    }

    /// The selection clamped into the live range (or left at 0 for an
    /// empty collection), as re-established before every read.
    pub open spec fn clamped_index(idx: int, len: int) -> int {
        if len <= 0 {
            0
        } else if idx < 0 {
            0
        } else if idx >= len {
            len - 1
        } else {
            idx
        }
    }

    /// Clamps the selection into the live range before a read.
    pub fn clamp_selection(&mut self)
        requires
            old(self).photos@.len() < 0x8000_0000,
        ensures
            *final(self) == with_index(
                *old(self),
                Session::clamped_index(
                    old(self).save_options.image_index as int,
                    old(self).photos@.len() as int,
                ) as i32,
            ),
    {
        let len = self.photos.len();
        let idx = self.save_options.image_index;
        self.save_options.image_index = if len == 0 {
            0
        } else if idx < 0 {
            0
        } else if idx >= len as i32 {
            len as i32 - 1
        } else {
            idx
        };
    }

    /// Flags record `i` for deletion; nothing is removed until the user
    /// confirms.
    pub fn mark_delete(&mut self, i: usize)
        requires
            i < old(self).photos@.len(),
        ensures
            final(self).photos@ == old(self).photos@.update(
                i as int,
                (MyImage { del: true, ..old(self).photos@[i as int] }),
            ),
            final(self).save_options == old(self).save_options,
            final(self).ui_tab == old(self).ui_tab,
            final(self).histogram == old(self).histogram,
            final(self).photo == old(self).photo,
    {
        self.photos[i].del = true;
    }

    /// Clears the deletion flag of record `i`, keeping the record.
    pub fn cancel_delete(&mut self, i: usize)
        requires
            i < old(self).photos@.len(),
        ensures
            final(self).photos@ == old(self).photos@.update(
                i as int,
                (MyImage { del: false, ..old(self).photos@[i as int] }),
            ),
            final(self).save_options == old(self).save_options,
            final(self).ui_tab == old(self).ui_tab,
            final(self).histogram == old(self).histogram,
            final(self).photo == old(self).photo,
    {
        self.photos[i].del = false;
    }

    /// Removes record `i` for good, after confirmation.
    pub fn confirm_delete(&mut self, i: usize)
        requires
            i < old(self).photos@.len(),
        ensures
            final(self).photos@ == old(self).photos@.remove(i as int),
            final(self).save_options == old(self).save_options,
            final(self).ui_tab == old(self).ui_tab,
            final(self).histogram == old(self).histogram,
            final(self).photo == old(self).photo,
    {
        self.photos.remove(i);
    }

    /// Sets whether record `i` is marked for export.
    pub fn set_save(&mut self, i: usize, save: bool)
        requires
            i < old(self).photos@.len(),
        ensures
            final(self).photos@ == old(self).photos@.update(
                i as int,
                (MyImage { save, ..old(self).photos@[i as int] }),
            ),
            final(self).save_options == old(self).save_options,
            final(self).ui_tab == old(self).ui_tab,
            final(self).histogram == old(self).histogram,
            final(self).photo == old(self).photo,
    {
        self.photos[i].save = save;
    }

    /// The record the selection points at, read through the clamp: the
    /// index is pinned into the live range first, and an empty collection
    /// has nothing to read.
    pub fn selected_photo(&self) -> (r: Option<&MyImage>)
        ensures
            self.photos@.len() == 0 ==> r is None,
            self.photos@.len() > 0 ==> (r matches Some(p) && *p == self.photos@[Session::clamped_index(
                self.save_options.image_index as int,
                self.photos@.len() as int,
            )]),
    {
        let len = self.photos.len();
        if len == 0 {
            return None;
        }
        let idx = self.save_options.image_index;
        let at: usize = if idx < 0 {
            0
        } else if idx as usize >= len {
            len - 1
        } else {
            idx as usize
        };
        Some(&self.photos[at])
    }

    /// How many records are currently marked for export.
    pub fn marked_count(&self) -> (r: usize)
        ensures
            r == crate::export::marked_count(self.photos@, self.photos@.len() as int),
    {
        let mut count: usize = 0;
        for i in 0..self.photos.len()
            invariant
                count == crate::export::marked_count(self.photos@, i as int),
                count <= i,
        {
            if self.photos[i].save {
                count = count + 1;
            }
        }
        count
    }

    /// Exports every record marked for export as one archive of JPEG
    /// entries, per the session's options. On well-formed input — no
    /// corrupt marked record, every marked record within the export
    /// limits when JPEG is on — the export succeeds.
    pub fn save_photos(&self) -> (r: Result<Vec<u8>, ExportError>)
        ensures
            has_invalid_marked(self.photos@) ==> r == Err::<Vec<u8>, ExportError>(
                ExportError::EncodeFailed,
            ),
            !has_invalid_marked(self.photos@) && (self.save_options.jpg
                ==> crate::export::marked_exportable(self.photos@)) ==> r is Ok,
            r matches Ok(bytes) ==> !has_invalid_marked(self.photos@) && bytes@ == zip_bytes(
                export_entries(self.photos@, self.photos@.len() as int, self.save_options.jpg),
            ),
    {
        export_photos(&self.photos, self.save_options.jpg)
    }
}

} // verus!
