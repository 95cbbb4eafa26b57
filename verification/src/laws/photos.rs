//! Laws of the photo folders.

use vstd::prelude::*;
use vstd::utf8::*;

use crate::encoding::{data_url, decode_base64};
use crate::outside::{base64_fits, unicode_lowercase};
use crate::photos::{
    folder_image, folder_names, is_inside, lower_case, mime_in_folder, mime_of_picked,
    needs_convert, photo_file, photos_among, pick_photo_folder, picked_photo, picker_extensions,
    wim_delete_file, wim_delete_folder, wim_list_folders, wim_read_folder_images, wim_write_file,
    CanonicalPath, FolderEntry, FolderImage, PhotoFile,
};

verus! {

/// Whether a path is another one or lies below it, however deep: the components of the other one
/// come first in it.
pub open spec fn below(path: CanonicalPath, base: CanonicalPath) -> bool {
    &&& base.components@.len() <= path.components@.len()
    &&& forall|i: int|
        0 <= i < base.components@.len() ==> path.components@[i]@ == #[trigger] base.components@[i]@
}

proof fn lemma_below(path: CanonicalPath, base: CanonicalPath)
    ensures
        below(path, base) <==> base@.is_prefix_of(path@),
{
    if below(path, base) {
        assert forall|i: int| 0 <= i < base@.len() implies base@[i] == path@[i] by {
            assert(base.components@[i]@ == path.components@[i]@);
        }
        assert(base@ =~= path@.subrange(0, base@.len() as int));
    }
    if base@.is_prefix_of(path@) {
        assert forall|i: int| 0 <= i < base.components@.len() implies path.components@[i]@
            == #[trigger] base.components@[i]@ by {
            assert(base@[i] == path@.subrange(0, base@.len() as int)[i]);
        }
    }
}

/// A path is inside a folder exactly where it is the folder or lies below it, however deep.
pub proof fn law_inside(path: &CanonicalPath, base: &CanonicalPath, r: bool)
    requires
        call_ensures(is_inside, (path, base), r),
    ensures
        r <==> below(*path, *base),
{
    lemma_below(*path, *base);
}

/// A file may be deleted exactly where it and the base folder resolve, it lies in the base folder
/// at any depth, and it is a file. Otherwise the caller is told why not: what did not resolve, the
/// file first, then where it lies, then what it is.
pub proof fn law_file_deletion(
    target: &Result<CanonicalPath, String>,
    base: &Result<CanonicalPath, String>,
    is_file: bool,
    r: Result<(), String>,
)
    requires
        call_ensures(wim_delete_file, (target, base, is_file), r),
    ensures
        r is Ok <==> (target matches Ok(t) && base matches Ok(b) && below(*t, *b) && is_file),
        target matches Err(e) ==> (r matches Err(f) && f@ == e@),
        target is Ok && base is Err ==> (r matches Err(f) && f@ == base->Err_0@),
        target is Ok && base is Ok && !below(target->Ok_0, base->Ok_0) ==> (r matches Err(f) && f@
            == "Refused: target file is not inside the WIM photo base folder."@),
        target is Ok && base is Ok && below(target->Ok_0, base->Ok_0) && !is_file ==> (r matches Err(
            f,
        ) && f@ == "Refused: not a file."@),
{
    if target is Ok && base is Ok {
        lemma_below(target->Ok_0, base->Ok_0);
    }
}

/// A folder may be deleted exactly where it and the base folder resolve and it lies in the base
/// folder, at any depth below it. Otherwise the caller is told why not.
pub proof fn law_folder_deletion(
    target: &Result<CanonicalPath, String>,
    base: &Result<CanonicalPath, String>,
    r: Result<(), String>,
)
    requires
        call_ensures(wim_delete_folder, (target, base), r),
    ensures
        r is Ok <==> (target matches Ok(t) && base matches Ok(b) && below(*t, *b)
            && t.components@.len() > b.components@.len()),
        target matches Err(e) ==> (r matches Err(f) && f@ == e@),
        target is Ok && base is Err ==> (r matches Err(f) && f@ == base->Err_0@),
        target is Ok && base is Ok && !below(target->Ok_0, base->Ok_0) ==> (r matches Err(f) && f@
            == "Refused: target is not inside the WIM photo base folder."@),
        target is Ok && base is Ok && below(target->Ok_0, base->Ok_0) && below(
            base->Ok_0,
            target->Ok_0,
        ) ==> (r matches Err(f) && f@ == "Refused: won't delete the base folder itself."@),
{
    if target is Ok && base is Ok {
        let t = target->Ok_0;
        let b = base->Ok_0;
        lemma_below(t, b);
        lemma_below(b, t);
        if below(t, b) && t.components@.len() == b.components@.len() {
            assert(t@ =~= b@);
        }
        if t@ == b@ {
            assert(t@.len() == b@.len());
        }
    }
}

/// Data is written exactly where the base folder and the file's own folder resolve, the folder lies
/// in the base folder at any depth, so does what stands at the path already, if anything does, and
/// the data decodes; and what is written is all that the data decodes to. Otherwise the caller is
/// told the first of these that fails.
pub proof fn law_file_writing(
    base: &Result<CanonicalPath, String>,
    parent: &Option<Result<CanonicalPath, String>>,
    target: &Option<Result<CanonicalPath, String>>,
    data: &str,
    decoded: Result<Vec<u8>, String>,
    r: Result<Vec<u8>, String>,
)
    requires
        call_ensures(decode_base64, (data,), decoded),
        call_ensures(wim_write_file, (base, parent, target, data), r),
    ensures
        ({
            let outside = "Refused: destination is not inside the WIM photo base folder."@;
            match *base {
                Err(e) => r matches Err(f) && f@ == e@,
                Ok(b) => match *parent {
                    None => r matches Err(f) && f@ == "No parent directory"@,
                    Some(Err(e)) => r matches Err(f) && f@ == e@,
                    Some(Ok(p)) => {
                        &&& !below(p, b) ==> (r matches Err(f) && f@ == outside)
                        &&& below(p, b) ==> (target matches Some(Err(e)) ==> (r matches Err(f) && f@
                            == e@))
                        &&& below(p, b) ==> (target matches Some(Ok(t)) ==> (!below(*t, b) ==> (
                        r matches Err(f) && f@ == outside)))
                        &&& below(p, b) && (target is None || (target matches Some(Ok(t)) && below(
                            *t,
                            b,
                        ))) ==> match decoded {
                            Ok(bytes) => r matches Ok(w) && w@ == bytes@,
                            Err(e) => r matches Err(f) && f@ == e@,
                        }
                    },
                },
            }
        }),
{
    if let Ok(b) = *base {
        if let Some(Ok(p)) = *parent {
            lemma_below(p, b);
        }
        if let Some(Ok(t)) = *target {
            lemma_below(t, b);
        }
    }
}

/// The media type of a picked photo is that of its extension, and that of a JPEG for any other;
/// only HEIC and HEIF files have to be converted; and in a folder exactly the files with one of the
/// eight extensions are photos, each of its own type.
pub proof fn law_media_types(
    extension: &str,
    picked: &'static str,
    convert: bool,
    listed: Option<&'static str>,
)
    requires
        call_ensures(mime_of_picked, (extension,), picked),
        call_ensures(needs_convert, (extension,), convert),
        call_ensures(mime_in_folder, (extension,), listed),
    ensures
        extension@ == "png"@ ==> picked@ == "image/png"@,
        extension@ == "png"@ ==> (listed matches Some(m) && m@ == "image/png"@),
        extension@ == "gif"@ ==> picked@ == "image/gif"@,
        extension@ == "gif"@ ==> (listed matches Some(m) && m@ == "image/gif"@),
        extension@ == "webp"@ ==> picked@ == "image/webp"@,
        extension@ == "webp"@ ==> (listed matches Some(m) && m@ == "image/webp"@),
        extension@ == "bmp"@ ==> picked@ == "image/bmp"@,
        extension@ == "bmp"@ ==> (listed matches Some(m) && m@ == "image/bmp"@),
        extension@ == "jpg"@ || extension@ == "jpeg"@ ==> (listed matches Some(m) && m@
            == "image/jpeg"@),
        extension@ == "heic"@ ==> (listed matches Some(m) && m@ == "image/heic"@),
        extension@ == "heif"@ ==> (listed matches Some(m) && m@ == "image/heif"@),
        extension@ != "png"@ && extension@ != "gif"@ && extension@ != "webp"@ && extension@
            != "bmp"@ ==> picked@ == "image/jpeg"@,
        convert <==> extension@ == "heic"@ || extension@ == "heif"@,
        extension@ != "png"@ && extension@ != "gif"@ && extension@ != "webp"@ && extension@
            != "bmp"@ && extension@ != "jpg"@ && extension@ != "jpeg"@ && extension@ != "heic"@
            && extension@ != "heif"@ ==> listed is None,
{
    reveal_strlit("png");
    reveal_strlit("gif");
    reveal_strlit("webp");
    reveal_strlit("bmp");
    reveal_strlit("jpg");
    reveal_strlit("jpeg");
    reveal_strlit("heic");
    reveal_strlit("heif");
    assert("png"@[0] != "gif"@[0] && "png"@[0] != "bmp"@[0] && "gif"@[0] != "bmp"@[0]);
    assert("jpg"@[0] == 'j' && "jpeg"@[0] == 'j' && "webp"@[0] == 'w');
    assert("heic"@[0] == 'h' && "heif"@[0] == 'h' && "heic"@[3] != "heif"@[3]);
}

/// What was picked is handed on as it is; the picker shows all types that can be shown without a
/// conversion, and no other.
pub proof fn law_picking(choice: Option<String>, folder: String, shown: Vec<&'static str>)
    requires
        call_ensures(pick_photo_folder, (choice,), folder),
        call_ensures(picker_extensions, (), shown),
    ensures
        choice matches Some(c) ==> folder@ == c@,
        choice is None ==> folder@.len() == 0,
        shown@.len() == 6,
        shown@[0]@ == "png"@,
        shown@[1]@ == "jpg"@,
        shown@[2]@ == "jpeg"@,
        shown@[3]@ == "gif"@,
        shown@[4]@ == "webp"@,
        shown@[5]@ == "bmp"@,
{
    let views = shown@.map_values(|s: &'static str| s@);
    assert(views.len() == 6);
    assert(views[0] == shown@[0]@ && views[1] == shown@[1]@ && views[2] == shown@[2]@);
    assert(views[3] == shown@[3]@ && views[4] == shown@[4]@ && views[5] == shown@[5]@);
}

/// Text with each of its capitals `A` to `Z` made small, where it is all ASCII.
pub open spec fn lowered(s: Seq<char>) -> Seq<char> {
    if is_ascii_chars(s) {
        s.map_values(
            |c: char|
                if 'A' <= c <= 'Z' {
                    ((c as u32) + 32) as char
                } else {
                    c
                },
        )
    } else {
        unicode_lowercase(s)
    }
}

proof fn lemma_lowered(s: Seq<char>)
    ensures
        lower_case(s) == lowered(s),
{
    if is_ascii_chars(s) {
        assert(lower_case(s) =~= lowered(s));
    }
}

/// A picked photo becomes a data URL of all its bytes, whose type is that of the extension in any
/// case, and that of a JPEG where it has none.
pub proof fn law_picked_photo(
    extension: Option<&str>,
    bytes: &[u8],
    lower: &str,
    mime: &'static str,
    url: String,
    r: String,
)
    requires
        base64_fits(bytes@.len()),
        extension matches Some(e) ==> lower@ == lowered(e@),
        extension is None ==> lower@ == "jpeg"@,
        call_ensures(mime_of_picked, (lower,), mime),
        call_ensures(data_url, (mime, bytes), url),
        call_ensures(picked_photo, (extension, bytes), r),
    ensures
        r@ == url@,
{
    if let Some(e) = extension {
        lemma_lowered(e@);
    } else {
        lemma_lowered("jpeg"@);
        reveal_strlit("jpeg");
        assert(lowered("jpeg"@) =~= "jpeg"@);
    }
}

/// An entry is a photo exactly where it is a file and its extension, in any case, is that of a
/// photo. The photo has the entry's place, name and path, and the type and the need for a
/// conversion that go with the extension; a file whose name cannot be read is called `photo`.
pub proof fn law_photo_file(
    entry: &FolderEntry,
    index: usize,
    lower: &str,
    mime: Option<&'static str>,
    convert: bool,
    r: Option<PhotoFile>,
)
    requires
        entry.extension matches Some(e) ==> lower@ == lowered(e@),
        entry.extension is None ==> lower@.len() == 0,
        call_ensures(mime_in_folder, (lower,), mime),
        call_ensures(needs_convert, (lower,), convert),
        call_ensures(photo_file, (entry, index), r),
    ensures
        r is Some <==> entry.is_file && mime is Some,
        r matches Some(photo) ==> {
            &&& photo.index == index
            &&& entry.name matches Some(name) ==> photo.name@ == name@
            &&& entry.name is None ==> photo.name@ == "photo"@
            &&& photo.path@ == entry.path@
            &&& mime matches Some(m) && photo.mime@ == m@
            &&& photo.needs_convert == convert
        },
{
    if let Some(e) = entry.extension {
        lemma_lowered(e@);
    } else {
        lemma_lowered(Seq::empty());
        assert(lowered(Seq::empty()) =~= Seq::<char>::empty());
        assert(lower@ =~= Seq::<char>::empty());
    }
}

/// The folders of a listing are the names of its entries that are folders and have a readable name,
/// each of them, in their order; a folder that is missing holds none.
pub proof fn law_folders(listing: &Option<Vec<FolderEntry>>, r: Vec<String>)
    requires
        call_ensures(wim_list_folders, (listing,), r),
    ensures
        listing is None ==> r@.len() == 0,
        listing matches Some(entries) ==> {
            let named = entries@.filter(|e: FolderEntry| e.is_dir && e.name is Some);
            &&& r@.len() == named.len()
            &&& forall|k: int|
                0 <= k < r@.len() ==> (#[trigger] r@[k])@ == named[k].name.unwrap()@
        },
{
    let views = r@.map_values(|s: String| s@);
    assert(views.len() == r@.len());
    if let Some(entries) = *listing {
        lemma_folders(entries@, entries@.len() as int);
        assert(entries@.take(entries@.len() as int) =~= entries@);
        let named = entries@.filter(|e: FolderEntry| e.is_dir && e.name is Some);
        assert forall|k: int| 0 <= k < r@.len() implies (#[trigger] r@[k])@
            == named[k].name.unwrap()@ by {
            assert(views[k] == r@[k]@);
        }
    }
}

proof fn lemma_folders(entries: Seq<FolderEntry>, n: int)
    requires
        0 <= n <= entries.len(),
    ensures
        ({
            let named = entries.take(n).filter(|e: FolderEntry| e.is_dir && e.name is Some);
            &&& folder_names(entries, n).len() == named.len()
            &&& forall|k: int|
                0 <= k < named.len() ==> folder_names(entries, n)[k] == (
                #[trigger] named[k]).name.unwrap()@
        }),
    decreases n,
{
    reveal(Seq::filter);
    if n > 0 {
        lemma_folders(entries, n - 1);
        assert(entries.take(n).drop_last() =~= entries.take(n - 1));
        assert(entries.take(n).last() == entries[n - 1]);
    }
}

/// One entry more adds its own photo at the end, if it is one, and leaves the photos before it as
/// they were; an empty listing holds none, nor does a folder that is missing.
pub proof fn law_folder_photos(
    listing: &Option<Vec<FolderEntry>>,
    longer: &Option<Vec<FolderEntry>>,
    entry: &FolderEntry,
    index: usize,
    photo: Option<PhotoFile>,
    r: Vec<PhotoFile>,
    s: Vec<PhotoFile>,
)
    requires
        call_ensures(photo_file, (entry, index), photo),
        call_ensures(wim_read_folder_images, (listing,), r),
        call_ensures(wim_read_folder_images, (longer,), s),
    ensures
        listing is None ==> r@.len() == 0,
        listing matches Some(entries) ==> entries@.len() == 0 ==> r@.len() == 0,
        listing matches Some(a) && longer matches Some(b) && b@ == a@.push(*entry) && index
            == a@.len() ==> {
            &&& s@.len() == r@.len() + if photo is Some {
                1int
            } else {
                0
            }
            &&& forall|k: int| 0 <= k < r@.len() ==> (#[trigger] s@[k])@ == r@[k]@
            &&& photo matches Some(p) ==> s@[r@.len() as int]@ == p@
        },
{
    let rv = r@.map_values(|p: PhotoFile| p@);
    let sv = s@.map_values(|p: PhotoFile| p@);
    assert(rv.len() == r@.len() && sv.len() == s@.len());
    if listing is Some && longer is Some {
        let a = listing.unwrap();
        let b = longer.unwrap();
        if b@ == a@.push(*entry) && index == a@.len() {
            lemma_same_photos(a@, b@, a@.len() as int);
            assert(b@[a@.len() as int] == *entry);
            assert forall|k: int| 0 <= k < r@.len() implies (#[trigger] s@[k])@ == r@[k]@ by {
                assert(rv[k] == r@[k]@);
                assert(sv[k] == s@[k]@);
                assert(sv[k] == rv[k]);
            }
            if let Some(p) = photo {
                assert(sv[r@.len() as int] == s@[r@.len() as int]@);
            }
        }
    }
}

proof fn lemma_same_photos(a: Seq<FolderEntry>, b: Seq<FolderEntry>, n: int)
    requires
        n <= a.len(),
        n <= b.len(),
        forall|i: int| 0 <= i < n ==> a[i] == b[i],
    ensures
        photos_among(a, n) == photos_among(b, n),
    decreases n,
{
    if n > 0 {
        lemma_same_photos(a, b, n - 1);
    }
}

/// A photo is handed out under its own name and path, as a data URL of all its bytes.
pub proof fn law_folder_image(
    photo: PhotoFile,
    bytes: &[u8],
    mime: &str,
    url: String,
    r: FolderImage,
)
    requires
        base64_fits(bytes@.len()),
        mime@ == photo.mime@,
        call_ensures(data_url, (mime, bytes), url),
        call_ensures(folder_image, (photo, bytes), r),
    ensures
        r.name@ == photo.name@,
        r.path@ == photo.path@,
        r.needs_convert == photo.needs_convert,
        r.data_url@ == url@,
{
}

} // verus!
