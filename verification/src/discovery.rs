//! File discovery: which of the entries that a directory walk yields are
//! image files to process.

use vstd::prelude::*;

verus! {

/// One entry that the walk could read.
#[derive(Debug)]
pub struct WalkEntry {
    /// The path of the entry.
    pub path: String,
    /// Whether the entry is a regular file.
    pub is_file: bool,
    /// The extension of the entry's name, without the dot, if it has one.
    pub extension: Option<String>,
}

/// What a step of the walk yields.
#[derive(Debug)]
pub enum WalkItem {
    /// An entry.
    Found(WalkEntry),
    /// A file or directory that could not be read.
    Unreadable,
}

/// The lower-case form of an ASCII capital; any other character itself.
pub open spec fn ascii_lowercase(c: char) -> char {
    if 'A' <= c && c <= 'Z' {
        ((c as int) + 32) as char
    } else {
        c
    }
}

/// The text with its ASCII capitals in lower case.
pub open spec fn lowercased(text: Seq<char>) -> Seq<char> {
    Seq::new(text.len(), |i: int| ascii_lowercase(text[i]))
}

/// The extension names an image format, in whatever case it is written:
/// jpg, jpeg, png, gif, webp, tiff or bmp.
pub open spec fn is_image_extension(extension: Seq<char>) -> bool {
    let lower = lowercased(extension);
    ||| lower == "jpg"@
    ||| lower == "jpeg"@
    ||| lower == "png"@
    ||| lower == "gif"@
    ||| lower == "webp"@
    ||| lower == "tiff"@
    ||| lower == "bmp"@
}

/// The item is an image file: an entry that could be read, a regular file,
/// with the extension of an image format.
pub open spec fn is_image_file(item: WalkItem) -> bool {
    match item {
        WalkItem::Found(entry) => entry.is_file && match entry.extension {
            Some(extension) => is_image_extension(extension@),
            None => false,
        },
        WalkItem::Unreadable => false,
    }
}

/// The path of an item; that of an unreadable one is empty.
pub open spec fn item_path(item: WalkItem) -> Seq<char> {
    match item {
        WalkItem::Found(entry) => entry.path@,
        WalkItem::Unreadable => Seq::empty(),
    }
}

/// The paths of the image files among the items, in the order of the walk.
pub open spec fn image_paths(items: Seq<WalkItem>) -> Seq<Seq<char>>
    decreases items.len(),
{
    if items.len() == 0 {
        Seq::empty()
    } else if is_image_file(items.last()) {
        image_paths(items.drop_last()).push(item_path(items.last()))
    } else {
        image_paths(items.drop_last())
    }
}

/// `path` is the path of some image file among the items.
pub open spec fn is_path_of_image_file(items: Seq<WalkItem>, path: Seq<char>) -> bool {
    exists|i: int|
        0 <= i < items.len() && is_image_file(#[trigger] items[i]) && item_path(items[i]) == path
}

/// Every path selected is the path of an image file among the items, and
/// no more paths are selected than there are items.
pub proof fn lemma_image_paths_come_from_items(items: Seq<WalkItem>)
    ensures
        image_paths(items).len() <= items.len(),
        forall|k: int|
            0 <= k < image_paths(items).len() ==> is_path_of_image_file(
                items,
                #[trigger] image_paths(items)[k],
            ),
    decreases items.len(),
{
    if items.len() > 0 {
        let rest = items.drop_last();
        lemma_image_paths_come_from_items(rest);
        assert forall|k: int| 0 <= k < image_paths(items).len() implies is_path_of_image_file(
            items,
            #[trigger] image_paths(items)[k],
        ) by {
            if k < image_paths(rest).len() {
                assert(is_path_of_image_file(rest, image_paths(rest)[k]));
                let i = choose|i: int|
                    0 <= i < rest.len() && is_image_file(#[trigger] rest[i]) && item_path(rest[i])
                        == image_paths(rest)[k];
                assert(items[i] == rest[i]);
            } else {
                assert(is_image_file(items[items.len() - 1]));
            }
        }
    }
}

/// Without items there is nothing to select.
pub proof fn lemma_no_items_no_paths()
    ensures
        image_paths(Seq::<WalkItem>::empty()).len() == 0,
{
}

/// Whether `text`, with its ASCII capitals lowered, reads `lower`.
pub fn equals_ignoring_ascii_case(text: &str, lower: &str) -> (same: bool)
    ensures
        same == (lowercased(text@) == lower@),
{
    let n = text.unicode_len();
    if n != lower.unicode_len() {
        return false;
    }
    let mut i: usize = 0;
    while i < n
        invariant
            i <= n,
            n == text@.len(),
            n == lower@.len(),
            forall|k: int| 0 <= k < i ==> ascii_lowercase(#[trigger] text@[k]) == lower@[k],
        decreases n - i,
    {
        let c = text.get_char(i);
        let folded: u32 = if c >= 'A' && c <= 'Z' { c as u32 + 32 } else { c as u32 };
        if folded != lower.get_char(i) as u32 {
            proof {
                assert(lowercased(text@)[i as int] != lower@[i as int]);
            }
            return false;
        }
        i += 1;
    }
    proof {
        assert(lowercased(text@) =~= lower@);
    }
    true
}

/// Whether an extension names an image format.
pub fn has_image_extension(extension: &str) -> (allowed: bool)
    ensures
        allowed == is_image_extension(extension@),
{
    equals_ignoring_ascii_case(extension, "jpg") || equals_ignoring_ascii_case(extension, "jpeg")
        || equals_ignoring_ascii_case(extension, "png") || equals_ignoring_ascii_case(
        extension,
        "gif",
    ) || equals_ignoring_ascii_case(extension, "webp") || equals_ignoring_ascii_case(
        extension,
        "tiff",
    ) || equals_ignoring_ascii_case(extension, "bmp")
}

/// Whether an item of the walk is an image file.
pub fn check_image_file(item: &WalkItem) -> (selected: bool)
    ensures
        selected == is_image_file(*item),
{
    match item {
        WalkItem::Found(entry) => {
            if !entry.is_file {
                return false;
            }
            match &entry.extension {
                Some(extension) => has_image_extension(extension.as_str()),
                None => false,
            }
        },
        WalkItem::Unreadable => false,
    }
}

/// Selects the image files among what a walk yielded: the paths of the
/// regular files whose extension names an image format, in the order of
/// the walk. Entries that could not be read are passed over.
pub fn list_image_files(items: &Vec<WalkItem>) -> (files: Vec<String>)
    ensures
        files@.len() == image_paths(items@).len(),
        forall|k: int| 0 <= k < files@.len() ==> (#[trigger] files@[k])@ == image_paths(items@)[k],
{
    let mut files: Vec<String> = Vec::new();
    let mut i: usize = 0;
    while i < items.len()
        invariant
            i <= items@.len(),
            files@.len() == image_paths(items@.take(i as int)).len(),
            forall|k: int|
                0 <= k < files@.len() ==> (#[trigger] files@[k])@ == image_paths(
                    items@.take(i as int),
                )[k],
        decreases items@.len() - i,
    {
        proof {
            assert(items@.take(i + 1).drop_last() =~= items@.take(i as int));
            assert(items@.take(i + 1).last() == items@[i as int]);
        }
        if check_image_file(&items[i]) {
            match &items[i] {
                WalkItem::Found(entry) => {
                    files.push(entry.path.clone());
                },
                WalkItem::Unreadable => {},
            }
        }
        i += 1;
    }
    proof {
        assert(items@.take(i as int) =~= items@);
    }
    files
}

} // verus!
