//! What folders, pictures, fonts and heights are taken for.
use crate::folder_tree::{
    children, folder_label, folder_le, folder_rank, icon_of, roots, well_known, LabelView, WellKnownFolder,
};
use crate::list_metrics::{height_of, measures};
use crate::lists::{first_index, lemma_first_index, lemma_first_index_is, lemma_stable_sort, ranks};
use crate::mail_laws::{lemma_kept, lemma_sorted};
use crate::memory::{fonts_in, is_font};
use crate::model::MailFolderView;
use crate::pictures::{
    begins_with, clipboard_format, mime_of, picture_menu, svg_like, swapped, PictureAction, PictureFormat,
};
use crate::text::lemma_text_order;
use vstd::prelude::*;

verus! {

proof fn lemma_folders_rank()
    ensures
        ranks(folder_le()),
{
    let le = folder_le();
    assert forall|a: MailFolderView, b: MailFolderView| #![trigger le(a, b)] le(a, b) || le(b, a) by {
        lemma_text_order(
            crate::text::lowercase(a.display_name),
            crate::text::lowercase(b.display_name),
            crate::text::lowercase(a.display_name),
        );
    }
    assert forall|a: MailFolderView, b: MailFolderView, c: MailFolderView|
        #![trigger le(a, b), le(b, c)]
        le(a, b) && le(b, c) implies le(a, c) by {
        lemma_text_order(
            crate::text::lowercase(a.display_name),
            crate::text::lowercase(b.display_name),
            crate::text::lowercase(c.display_name),
        );
    }
}

/// Whether there is a folder of an id.
pub open spec fn has_folder(all: Seq<MailFolderView>, id: Seq<char>) -> bool {
    exists|i: int| 0 <= i < all.len() && (#[trigger] all[i]).id == id
}

/// Whether a folder names another folder that is there as the one above it.
pub open spec fn stands_below(all: Seq<MailFolderView>, folder: MailFolderView) -> bool {
    folder.parent_id is Some && folder.parent_id->0 != folder.id && has_folder(all, folder.parent_id->0)
}

/// Folders stand below the folder that they name, and at the top where they name none that is
/// there; siblings are in order, those that are well known first.
pub proof fn law_folders_stand_below_their_parent(all: Seq<MailFolderView>, id: Seq<char>)
    ensures
        forall|x: MailFolderView| #[trigger] roots(all).contains(x) <==> all.contains(x) && !stands_below(all, x),
        forall|x: MailFolderView| #[trigger]
            children(all, id).contains(x) <==> all.contains(x) && stands_below(all, x) && x.parent_id == Some(id),
        forall|i: int, j: int|
            #![trigger roots(all)[i], roots(all)[j]]
            0 <= i < j < roots(all).len() ==> folder_rank(roots(all)[i]) <= folder_rank(roots(all)[j]),
        forall|i: int, j: int|
            #![trigger children(all, id)[i], children(all, id)[j]]
            0 <= i < j < children(all, id).len() ==> folder_rank(children(all, id)[i]) <= folder_rank(
                children(all, id)[j],
            ),
{
    let p = crate::folder_tree::is_root(all);
    let q = crate::folder_tree::is_child(all, id);
    lemma_kept(all, p);
    lemma_kept(all, q);
    lemma_sorted(all.filter(p), folder_le());
    lemma_sorted(all.filter(q), folder_le());
    lemma_folders_rank();
    lemma_stable_sort(all.filter(p), folder_le());
    lemma_stable_sort(all.filter(q), folder_le());
    assert forall|x: MailFolderView| #[trigger] p(x) == !stands_below(all, x) by {
        if x.parent_id is Some {
            let parent = x.parent_id->0;
            let r = crate::folder_tree::has_id(parent);
            if all.any(r) {
                let i = choose|i: int| 0 <= i < all.len() && r(#[trigger] all[i]);
                assert(all[i].id == parent);
            }
            if has_folder(all, parent) {
                let i = choose|i: int| 0 <= i < all.len() && (#[trigger] all[i]).id == parent;
                assert(r(all[i]));
            }
        }
    }
}

/// A folder that the provider has no name of its own for goes by the name that it was given,
/// with the plain icon, and comes last.
pub proof fn law_folders_go_by_their_name(folder: MailFolderView)
    ensures
        folder.well_known_name is None ==> folder_label(folder) == LabelView::Text(folder.display_name) && icon_of(folder)
            == "folder"@ && folder_rank(folder) == 20,
        well_known(folder.well_known_name) is Some ==> folder_label(folder) is Key && folder_rank(folder) <= 20,
        well_known(folder.well_known_name) == Some(WellKnownFolder::Inbox) ==> folder_rank(folder) == 0
            && folder_label(folder) == LabelView::Key("folder-inbox"@),
        well_known(Some("inbox"@)) == Some(WellKnownFolder::Inbox),
{
}

/// The format of a picture is told by its first bytes, and messages name it by that format.
pub proof fn law_pictures_are_told_by_their_first_bytes(bytes: Seq<u8>)
    requires
        !svg_like(bytes),
    ensures
        bytes.len() >= 3 && bytes[0] == 0xff && bytes[1] == 0xd8 && bytes[2] == 0xff ==> clipboard_format(bytes) == Some(
            PictureFormat::Jpeg,
        ) && mime_of(bytes) == "image/jpeg"@,
        bytes.len() >= 6 && bytes[0] == 0x47 && bytes[1] == 0x49 && bytes[2] == 0x46 && bytes[3] == 0x38 && (bytes[4]
            == 0x37 || bytes[4] == 0x39) && bytes[5] == 0x61 ==> clipboard_format(bytes) == Some(PictureFormat::Gif)
            && mime_of(bytes) == "image/gif"@,
        bytes.len() >= 8 && bytes[0] == 0x89 && bytes[1] == 0x50 && bytes[2] == 0x4e && bytes[3] == 0x47 && bytes[4]
            == 0x0d && bytes[5] == 0x0a && bytes[6] == 0x1a && bytes[7] == 0x0a ==> clipboard_format(bytes) == Some(
            PictureFormat::Png,
        ) && mime_of(bytes) == "image/png"@,
        bytes.len() == 0 ==> clipboard_format(bytes) is None,
{
    let jpeg: Seq<u8> = seq![0xff, 0xd8, 0xff];
    let gif_new: Seq<u8> = seq![0x47, 0x49, 0x46, 0x38, 0x39, 0x61];
    let gif_old: Seq<u8> = seq![0x47, 0x49, 0x46, 0x38, 0x37, 0x61];
    let png = crate::pictures::png_signature();
    if begins_with(bytes, png) {
        assert(bytes.take(8)[0] == png[0]);
    }
    if begins_with(bytes, jpeg) {
        assert(bytes.take(3)[0] == jpeg[0]);
    }
    if bytes.len() >= 3 && bytes[0] == 0xff && bytes[1] == 0xd8 && bytes[2] == 0xff {
        assert(bytes.take(3) =~= jpeg);
    }
    if bytes.len() >= 6 && bytes[0] == 0x47 && bytes[1] == 0x49 && bytes[2] == 0x46 && bytes[3] == 0x38 && bytes[5]
        == 0x61 {
        if bytes[4] == 0x39 {
            assert(bytes.take(6) =~= gif_new);
        }
        if bytes[4] == 0x37 {
            assert(bytes.take(6) =~= gif_old);
        }
    }
    if bytes.len() >= 8 && bytes[0] == 0x89 && bytes[1] == 0x50 && bytes[2] == 0x4e && bytes[3] == 0x47 && bytes[4]
        == 0x0d && bytes[5] == 0x0a && bytes[6] == 0x1a && bytes[7] == 0x0a {
        assert(bytes.take(8) =~= png);
    }
}

/// Of each whole pixel red and blue change places, and green and the last byte stay.
pub proof fn law_red_and_blue_change_places(bytes: Seq<u8>, pixel: int)
    requires
        0 <= pixel,
        4 * pixel + 4 <= bytes.len(),
    ensures
        swapped(bytes).len() == bytes.len(),
        swapped(bytes)[4 * pixel] == bytes[4 * pixel + 2],
        swapped(bytes)[4 * pixel + 1] == bytes[4 * pixel + 1],
        swapped(bytes)[4 * pixel + 2] == bytes[4 * pixel],
        swapped(bytes)[4 * pixel + 3] == bytes[4 * pixel + 3],
        picture_menu(true).len() == picture_menu(false).len() + 1,
        picture_menu(true)[0] == PictureAction::Enlarge,
        !picture_menu(false).contains(PictureAction::Enlarge),
{
}

/// A height that was noted for a kind that had none is read back, and no other kind takes
/// it.
pub proof fn law_noted_heights_are_read_back(heights: Seq<(u32, u32)>, code: u32, height: u32, other: u32)
    ensures
        first_index(heights, measures(code)) is None ==> height_of(heights.push((code, height)), code) == height,
        other != code ==> height_of(heights.push((code, height)), other) == height_of(heights, other),
        first_index(heights, measures(code)) is Some ==> height_of(heights.push((code, height)), code) == height_of(
            heights,
            code,
        ),
{
    let all = heights.push((code, height));
    lemma_first_index(heights, measures(code));
    lemma_first_index(heights, measures(other));
    lemma_first_index(all, measures(other));
    assert(forall|i: int| 0 <= i < heights.len() ==> all[i] == #[trigger] heights[i]);
    match first_index(heights, measures(code)) {
        Some(i) => {
            assert(all[i] == heights[i]);
            assert forall|j: int| 0 <= j < i implies !measures(code)(#[trigger] all[j]) by {
                assert(all[j] == heights[j]);
            }
            lemma_first_index_is(all, measures(code), i);
        },
        None => {
            assert forall|j: int| 0 <= j < heights.len() implies !measures(code)(#[trigger] all[j]) by {
                assert(all[j] == heights[j]);
            }
            lemma_first_index_is(all, measures(code), heights.len() as int);
        },
    }
    if other != code {
        match first_index(heights, measures(other)) {
            Some(i) => {
                assert(all[i] == heights[i]);
                assert forall|j: int| 0 <= j < i implies !measures(other)(#[trigger] all[j]) by {
                    assert(all[j] == heights[j]);
                }
                lemma_first_index_is(all, measures(other), i);
            },
            None => {
                if first_index(all, measures(other)) is Some {
                    let k = first_index(all, measures(other))->0;
                    if k < heights.len() {
                        assert(all[k] == heights[k]);
                    }
                }
            },
        }
    }
}

/// The fonts that are counted are files with a name of a font, each once; nothing is counted
/// twice and nothing below zero.
pub proof fn law_fonts_are_counted_once(lines: Seq<Seq<char>>)
    ensures
        match fonts_in(lines) {
            Some((seen, total)) => {
                &&& total >= 0
                &&& seen.no_duplicates()
                &&& seen.len() <= lines.len()
                &&& forall|i: int|
                    0 <= i < seen.len() ==> is_font(#[trigger] seen[i]) && seen[i].len() > 0 && seen[i][0] == '/'
            },
            None => true,
        },
    decreases lines.len(),
{
    if lines.len() > 0 {
        law_fonts_are_counted_once(lines.drop_last());
    }
}

} // verus!
