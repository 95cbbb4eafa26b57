//! The photo folders: which files are photos, what is handed out of them, and which paths may be
//! written or deleted.

use vstd::prelude::*;
use vstd::string::*;
use vstd::utf8::*;

use crate::encoding::{
    base64_bytes, data_url, data_url_of, decode_base64, decoded_view, law_data_url_round_trip,
    upload_text,
};
use crate::outside::{ascii_lower, base64_fits, to_lower, unicode_lowercase};
use crate::text::same_text;

verus! {

// ---------------------------------------------------------------------------------------------
// Media types
// ---------------------------------------------------------------------------------------------

/// Text in lower case.
pub open spec fn lower_case(s: Seq<char>) -> Seq<char> {
    if is_ascii_chars(s) {
        s.map_values(|c: char| ascii_lower(c))
    } else {
        unicode_lowercase(s)
    }
}

/// The media type of a photo that was picked, by its extension in lower case.
pub open spec fn picked_mime(extension: Seq<char>) -> Seq<char> {
    if extension == "png"@ {
        "image/png"@
    } else if extension == "gif"@ {
        "image/gif"@
    } else if extension == "webp"@ {
        "image/webp"@
    } else if extension == "bmp"@ {
        "image/bmp"@
    } else {
        "image/jpeg"@
    }
}

/// Whether photos with an extension have to be converted before they can be shown.
pub open spec fn is_heic(extension: Seq<char>) -> bool {
    extension == "heic"@ || extension == "heif"@
}

/// The media type of a file in a photo folder, by its extension in lower case; a file with another
/// extension is no photo.
pub open spec fn folder_mime(extension: Seq<char>) -> Option<Seq<char>> {
    if extension == "png"@ {
        Some("image/png"@)
    } else if extension == "gif"@ {
        Some("image/gif"@)
    } else if extension == "webp"@ {
        Some("image/webp"@)
    } else if extension == "bmp"@ {
        Some("image/bmp"@)
    } else if extension == "jpg"@ || extension == "jpeg"@ {
        Some("image/jpeg"@)
    } else if extension == "heic"@ {
        Some("image/heic"@)
    } else if extension == "heif"@ {
        Some("image/heif"@)
    } else {
        None
    }
}

/// The media type of a photo that was picked, by its extension in lower case.
pub fn mime_of_picked(extension: &str) -> (r: &'static str)
    ensures
        r@ == picked_mime(extension@),
{
    if same_text(extension, "png") {
        "image/png"
    } else if same_text(extension, "gif") {
        "image/gif"
    } else if same_text(extension, "webp") {
        "image/webp"
    } else if same_text(extension, "bmp") {
        "image/bmp"
    } else {
        "image/jpeg"
    }
}

/// Whether photos with an extension have to be converted before they can be shown.
pub fn needs_convert(extension: &str) -> (r: bool)
    ensures
        r == is_heic(extension@),
{
    same_text(extension, "heic") || same_text(extension, "heif")
}

/// The media type of a file in a photo folder, by its extension in lower case.
pub fn mime_in_folder(extension: &str) -> (r: Option<&'static str>)
    ensures
        folder_mime(extension@) == (match r {
            Some(mime) => Some(mime@),
            None => None,
        }),
{
    if same_text(extension, "png") {
        Some("image/png")
    } else if same_text(extension, "gif") {
        Some("image/gif")
    } else if same_text(extension, "webp") {
        Some("image/webp")
    } else if same_text(extension, "bmp") {
        Some("image/bmp")
    } else if same_text(extension, "jpg") || same_text(extension, "jpeg") {
        Some("image/jpeg")
    } else if same_text(extension, "heic") {
        Some("image/heic")
    } else if same_text(extension, "heif") {
        Some("image/heif")
    } else {
        None
    }
}

// ---------------------------------------------------------------------------------------------
// Picking
// ---------------------------------------------------------------------------------------------

/// The folder that was picked, or empty text where nothing was.
pub fn pick_photo_folder(choice: Option<String>) -> (r: String)
    ensures
        r@ == (match choice {
            Some(folder) => folder@,
            None => Seq::<char>::empty(),
        }),
{
    match choice {
        Some(folder) => folder,
        None => {
            let none: String = String::new();
            assert(none@ =~= Seq::<char>::empty());
            none
        },
    }
}

/// The extensions that the picker shows.
pub open spec fn picker_list() -> Seq<Seq<char>> {
    seq!["png"@, "jpg"@, "jpeg"@, "gif"@, "webp"@, "bmp"@]
}

/// The extensions that the picker shows.
pub fn picker_extensions() -> (r: Vec<&'static str>)
    ensures
        r@.map_values(|s: &'static str| s@) == picker_list(),
{
    let mut r: Vec<&'static str> = Vec::new();
    r.push("png");
    r.push("jpg");
    r.push("jpeg");
    r.push("gif");
    r.push("webp");
    r.push("bmp");
    assert(r@.map_values(|s: &'static str| s@) =~= picker_list());
    r
}

/// A photo that was picked, as a data URL. `extension` is that of its path, where it has one; a
/// photo without is taken for a JPEG.
pub fn picked_photo(extension: Option<&str>, bytes: &[u8]) -> (r: String)
    requires
        base64_fits(bytes@.len()),
    ensures
        r@ == data_url_of(
            picked_mime(
                lower_case(
                    match extension {
                        Some(e) => e@,
                        None => "jpeg"@,
                    },
                ),
            ),
            bytes@,
        ),
{
    let lower: String = match extension {
        Some(e) => to_lower(e),
        None => to_lower("jpeg"),
    };
    data_url(mime_of_picked(lower.as_str()), bytes)
}

// ---------------------------------------------------------------------------------------------
// Listing
// ---------------------------------------------------------------------------------------------

/// One entry of a folder. Its name and its extension are there where they are UTF-8.
pub struct FolderEntry {
    pub is_dir: bool,
    pub is_file: bool,
    pub name: Option<String>,
    pub extension: Option<String>,
    pub path: String,
}

/// A photo in a folder, before it is read; `index` is its place among the entries.
pub struct PhotoFile {
    pub index: usize,
    pub name: String,
    pub path: String,
    pub mime: String,
    pub needs_convert: bool,
}

/// A photo in a folder in contracts.
pub struct PhotoFileView {
    pub index: int,
    pub name: Seq<char>,
    pub path: Seq<char>,
    pub mime: Seq<char>,
    pub needs_convert: bool,
}

impl View for PhotoFile {
    type V = PhotoFileView;

    open spec fn view(&self) -> PhotoFileView {
        PhotoFileView {
            index: self.index as int,
            name: self.name@,
            path: self.path@,
            mime: self.mime@,
            needs_convert: self.needs_convert,
        }
    }
}

/// A photo as it is handed out.
pub struct FolderImage {
    pub name: String,
    pub path: String,
    pub needs_convert: bool,
    pub data_url: String,
}

/// The names of the first `n` entries that are folders, in their order.
pub open spec fn folder_names(entries: Seq<FolderEntry>, n: int) -> Seq<Seq<char>>
    decreases n,
{
    if n <= 0 {
        Seq::empty()
    } else {
        let entry = entries[n - 1];
        let rest = folder_names(entries, n - 1);
        match entry.name {
            Some(name) if entry.is_dir => rest.push(name@),
            _ => rest,
        }
    }
}

/// The extension of an entry in lower case; empty where it has none.
pub open spec fn extension_of(entry: FolderEntry) -> Seq<char> {
    lower_case(
        match entry.extension {
            Some(e) => e@,
            None => Seq::<char>::empty(),
        },
    )
}

/// The photo that an entry is, if it is one.
pub open spec fn photo_of(entry: FolderEntry, index: int) -> Option<PhotoFileView> {
    let extension = extension_of(entry);
    match folder_mime(extension) {
        Some(mime) if entry.is_file => Some(
            PhotoFileView {
                index,
                name: match entry.name {
                    Some(name) => name@,
                    None => "photo"@,
                },
                path: entry.path@,
                mime,
                needs_convert: is_heic(extension),
            },
        ),
        _ => None,
    }
}

/// The photos among the first `n` entries, in their order.
pub open spec fn photos_among(entries: Seq<FolderEntry>, n: int) -> Seq<PhotoFileView>
    decreases n,
{
    if n <= 0 {
        Seq::empty()
    } else {
        let rest = photos_among(entries, n - 1);
        match photo_of(entries[n - 1], n - 1) {
            Some(photo) => rest.push(photo),
            None => rest,
        }
    }
}

/// The names of the folders in a folder, in the order of its entries. A folder that is missing
/// holds none.
pub fn wim_list_folders(listing: &Option<Vec<FolderEntry>>) -> (r: Vec<String>)
    ensures
        r@.map_values(|s: String| s@) == (match *listing {
            Some(entries) => folder_names(entries@, entries@.len() as int),
            None => Seq::<Seq<char>>::empty(),
        }),
{
    let mut r: Vec<String> = Vec::new();
    assert(r@.map_values(|s: String| s@) =~= Seq::<Seq<char>>::empty());
    match listing {
        Some(entries) => {
            let mut i: usize = 0;
            while i < entries.len()
                invariant
                    i <= entries@.len(),
                    r@.map_values(|s: String| s@) == folder_names(entries@, i as int),
                decreases entries@.len() - i,
            {
                let entry = &entries[i];
                if entry.is_dir {
                    if let Some(name) = &entry.name {
                        let ghost before = r@;
                        r.push(name.clone());
                        assert(r@.map_values(|s: String| s@) =~= before.map_values(
                            |s: String| s@,
                        ).push(name@));
                    }
                }
                i += 1;
            }
        },
        None => {},
    }
    r
}

/// The photo that an entry is, if it is one.
pub fn photo_file(entry: &FolderEntry, index: usize) -> (r: Option<PhotoFile>)
    ensures
        photo_of(*entry, index as int) == (match r {
            Some(photo) => Some(photo@),
            None => None,
        }),
{
    let extension: String = match &entry.extension {
        Some(e) => to_lower(e.as_str()),
        None => {
            let none: String = String::new();
            assert(none@ =~= Seq::<char>::empty());
            to_lower(none.as_str())
        },
    };
    if !entry.is_file {
        return None;
    }
    match mime_in_folder(extension.as_str()) {
        Some(mime) => {
            let name: String = match &entry.name {
                Some(name) => name.clone(),
                None => "photo".to_string(),
            };
            Some(
                PhotoFile {
                    index,
                    name,
                    path: entry.path.clone(),
                    mime: mime.to_string(),
                    needs_convert: needs_convert(extension.as_str()),
                },
            )
        },
        None => None,
    }
}

/// The photos in a folder that are to be read, in the order of its entries. A folder that is
/// missing holds none.
pub fn wim_read_folder_images(listing: &Option<Vec<FolderEntry>>) -> (r: Vec<PhotoFile>)
    ensures
        r@.map_values(|p: PhotoFile| p@) == (match *listing {
            Some(entries) => photos_among(entries@, entries@.len() as int),
            None => Seq::<PhotoFileView>::empty(),
        }),
{
    let mut r: Vec<PhotoFile> = Vec::new();
    assert(r@.map_values(|p: PhotoFile| p@) =~= Seq::<PhotoFileView>::empty());
    match listing {
        Some(entries) => {
            let mut i: usize = 0;
            while i < entries.len()
                invariant
                    i <= entries@.len(),
                    r@.map_values(|p: PhotoFile| p@) == photos_among(entries@, i as int),
                decreases entries@.len() - i,
            {
                if let Some(photo) = photo_file(&entries[i], i) {
                    let ghost before = r@;
                    r.push(photo);
                    assert(r@.map_values(|p: PhotoFile| p@) =~= before.map_values(
                        |p: PhotoFile| p@,
                    ).push(photo@));
                }
                i += 1;
            }
        },
        None => {},
    }
    r
}

/// A photo with what was read from it, as it is handed out.
pub fn folder_image(photo: PhotoFile, bytes: &[u8]) -> (r: FolderImage)
    requires
        base64_fits(bytes@.len()),
    ensures
        r.name@ == photo.name@,
        r.path@ == photo.path@,
        r.needs_convert == photo.needs_convert,
        r.data_url@ == data_url_of(photo.mime@, bytes@),
{
    let url: String = data_url(photo.mime.as_str(), bytes);
    FolderImage {
        name: photo.name,
        path: photo.path,
        needs_convert: photo.needs_convert,
        data_url: url,
    }
}

// ---------------------------------------------------------------------------------------------
// Guarded paths
// ---------------------------------------------------------------------------------------------

/// An absolute path without links or dots, by its components.
pub struct CanonicalPath {
    pub components: Vec<Vec<u8>>,
}

impl View for CanonicalPath {
    type V = Seq<Seq<u8>>;

    open spec fn view(&self) -> Seq<Seq<u8>> {
        self.components@.map_values(|c: Vec<u8>| c@)
    }
}

/// Whether a path is `base` or lies in it.
pub open spec fn lies_in(path: Seq<Seq<u8>>, base: Seq<Seq<u8>>) -> bool {
    base.is_prefix_of(path)
}

/// What resolving a path gave, in contracts.
pub open spec fn resolved_view(r: Result<CanonicalPath, String>) -> Result<
    Seq<Seq<u8>>,
    Seq<char>,
> {
    match r {
        Ok(path) => Ok(path@),
        Err(e) => Err(e@),
    }
}

/// Leave to go on, or why there is none.
pub open spec fn leave_view(r: Result<(), String>) -> Result<(), Seq<char>> {
    match r {
        Ok(()) => Ok(()),
        Err(e) => Err(e@),
    }
}

/// Whether a folder may be deleted: what lies in the base folder may, the base folder may not.
pub open spec fn folder_deletion(
    target: Result<Seq<Seq<u8>>, Seq<char>>,
    base: Result<Seq<Seq<u8>>, Seq<char>>,
) -> Result<(), Seq<char>> {
    match target {
        Err(e) => Err(e),
        Ok(target) => match base {
            Err(e) => Err(e),
            Ok(base) => if !lies_in(target, base) {
                Err("Refused: target is not inside the WIM photo base folder."@)
            } else if target == base {
                Err("Refused: won't delete the base folder itself."@)
            } else {
                Ok(())
            },
        },
    }
}

/// Whether a file may be deleted: what lies in the base folder may, if it is a file.
pub open spec fn file_deletion(
    target: Result<Seq<Seq<u8>>, Seq<char>>,
    base: Result<Seq<Seq<u8>>, Seq<char>>,
    is_file: bool,
) -> Result<(), Seq<char>> {
    match target {
        Err(e) => Err(e),
        Ok(target) => match base {
            Err(e) => Err(e),
            Ok(base) => if !lies_in(target, base) {
                Err("Refused: target file is not inside the WIM photo base folder."@)
            } else if !is_file {
                Err("Refused: not a file."@)
            } else {
                Ok(())
            },
        },
    }
}

/// The bytes to write to a file whose folder is `parent`, or why none are written: the folder has
/// to lie in the base folder, so has what `target` says stands at the path already, and the data
/// has to be base64.
pub open spec fn file_writing(
    base: Result<Seq<Seq<u8>>, Seq<char>>,
    parent: Option<Result<Seq<Seq<u8>>, Seq<char>>>,
    target: Option<Result<Seq<Seq<u8>>, Seq<char>>>,
    data: Seq<char>,
) -> Result<Seq<u8>, Seq<char>> {
    match base {
        Err(e) => Err(e),
        Ok(base) => match parent {
            None => Err("No parent directory"@),
            Some(Err(e)) => Err(e),
            Some(Ok(parent)) => if !lies_in(parent, base) {
                Err("Refused: destination is not inside the WIM photo base folder."@)
            } else {
                match target {
                    Some(Err(e)) => Err(e),
                    Some(Ok(target)) => if !lies_in(target, base) {
                        Err("Refused: destination is not inside the WIM photo base folder."@)
                    } else {
                        base64_bytes(data)
                    },
                    None => base64_bytes(data),
                }
            },
        },
    }
}

/// What resolving a path gave, where there was one to resolve, in contracts.
pub open spec fn maybe_resolved_view(r: Option<Result<CanonicalPath, String>>) -> Option<
    Result<Seq<Seq<u8>>, Seq<char>>,
> {
    match r {
        Some(r) => Some(resolved_view(r)),
        None => None,
    }
}

/// Whether two components are the same.
fn same_component(a: &Vec<u8>, b: &Vec<u8>) -> (r: bool)
    ensures
        r == (a@ == b@),
{
    if a.len() != b.len() {
        return false;
    }
    let mut i: usize = 0;
    while i < a.len()
        invariant
            i <= a@.len(),
            a@.len() == b@.len(),
            forall|j: int| 0 <= j < i ==> a@[j] == b@[j],
        decreases a@.len() - i,
    {
        if a[i] != b[i] {
            return false;
        }
        i += 1;
    }
    assert(a@ =~= b@);
    true
}

/// Whether a path is `base` or lies in it.
pub fn is_inside(path: &CanonicalPath, base: &CanonicalPath) -> (r: bool)
    ensures
        r == lies_in(path@, base@),
{
    if path.components.len() < base.components.len() {
        return false;
    }
    let mut i: usize = 0;
    while i < base.components.len()
        invariant
            i <= base.components@.len() <= path.components@.len(),
            forall|j: int| 0 <= j < i ==> path@[j] == base@[j],
        decreases base.components@.len() - i,
    {
        if !same_component(&path.components[i], &base.components[i]) {
            assert(path@[i as int] != base@[i as int]);
            assert(path@.subrange(0, base@.len() as int)[i as int] == path@[i as int]);
            return false;
        }
        i += 1;
    }
    assert(path@.subrange(0, base@.len() as int) =~= base@);
    true
}

/// Leave to delete a folder, given what resolving it and the base folder gave.
pub fn wim_delete_folder(
    target: &Result<CanonicalPath, String>,
    base: &Result<CanonicalPath, String>,
) -> (r: Result<(), String>)
    ensures
        leave_view(r) == folder_deletion(resolved_view(*target), resolved_view(*base)),
{
    match target {
        Err(e) => Err(e.clone()),
        Ok(target) => match base {
            Err(e) => Err(e.clone()),
            Ok(base) => {
                if !is_inside(target, base) {
                    Err("Refused: target is not inside the WIM photo base folder.".to_string())
                } else if is_inside(base, target) {
                    assert(target@ =~= base@);
                    Err("Refused: won't delete the base folder itself.".to_string())
                } else {
                    Ok(())
                }
            },
        },
    }
}

/// Leave to delete a file, given what resolving it and the base folder gave.
pub fn wim_delete_file(
    target: &Result<CanonicalPath, String>,
    base: &Result<CanonicalPath, String>,
    is_file: bool,
) -> (r: Result<(), String>)
    ensures
        leave_view(r) == file_deletion(resolved_view(*target), resolved_view(*base), is_file),
{
    match target {
        Err(e) => Err(e.clone()),
        Ok(target) => match base {
            Err(e) => Err(e.clone()),
            Ok(base) => {
                if !is_inside(target, base) {
                    Err("Refused: target file is not inside the WIM photo base folder.".to_string())
                } else if !is_file {
                    Err("Refused: not a file.".to_string())
                } else {
                    Ok(())
                }
            },
        },
    }
}

/// The bytes to write to a file, given what resolving the base folder, the file's own folder and
/// the file gave. `target` is there wherever something stands at the path, be it a link that leads
/// nowhere: a link is written through, so it has to lead to a place in the base folder.
pub fn wim_write_file(
    base: &Result<CanonicalPath, String>,
    parent: &Option<Result<CanonicalPath, String>>,
    target: &Option<Result<CanonicalPath, String>>,
    data: &str,
) -> (r: Result<Vec<u8>, String>)
    ensures
        decoded_view(r) == file_writing(
            resolved_view(*base),
            maybe_resolved_view(*parent),
            maybe_resolved_view(*target),
            data@,
        ),
{
    match base {
        Err(e) => Err(e.clone()),
        Ok(base) => match parent {
            None => Err("No parent directory".to_string()),
            Some(Err(e)) => Err(e.clone()),
            Some(Ok(parent)) => {
                if !is_inside(parent, base) {
                    Err("Refused: destination is not inside the WIM photo base folder.".to_string())
                } else {
                    match target {
                        Some(Err(e)) => Err(e.clone()),
                        Some(Ok(target)) => {
                            if !is_inside(target, base) {
                                Err(
                                    "Refused: destination is not inside the WIM photo base folder.".to_string(),
                                )
                            } else {
                                decode_base64(data)
                            }
                        },
                        None => decode_base64(data),
                    }
                }
            },
        },
    }
}

// ---------------------------------------------------------------------------------------------
// Laws
// ---------------------------------------------------------------------------------------------

/// A folder that may be deleted lies in the base folder, below it: neither the base folder nor
/// anything that the base folder lies in is ever deleted.
pub proof fn law_deletion_stays_below(
    target: Result<Seq<Seq<u8>>, Seq<char>>,
    base: Result<Seq<Seq<u8>>, Seq<char>>,
)
    requires
        folder_deletion(target, base) is Ok,
    ensures
        target is Ok && base is Ok,
        lies_in(target->Ok_0, base->Ok_0),
        !lies_in(base->Ok_0, target->Ok_0),
        target->Ok_0.len() > base->Ok_0.len(),
{
    let t = target->Ok_0;
    let b = base->Ok_0;
    if t.len() == b.len() {
        assert(t.subrange(0, b.len() as int) =~= t);
        assert(t =~= b);
    }
}

/// A file is written only into a folder that lies in the base folder, and only where what stands at
/// its path already, if anything does, lies there too; it is deleted only where it lies there
/// itself.
pub proof fn law_files_stay_inside(
    base: Result<Seq<Seq<u8>>, Seq<char>>,
    parent: Option<Result<Seq<Seq<u8>>, Seq<char>>>,
    target: Option<Result<Seq<Seq<u8>>, Seq<char>>>,
    file: Result<Seq<Seq<u8>>, Seq<char>>,
    data: Seq<char>,
    is_file: bool,
)
    ensures
        file_writing(base, parent, target, data) is Ok ==> {
            &&& base matches Ok(b) && parent matches Some(Ok(p)) && lies_in(p, b)
            &&& target matches Some(t) ==> t matches Ok(t) && lies_in(t, base->Ok_0)
        },
        file_deletion(file, base, is_file) is Ok ==> (base matches Ok(b) && file matches Ok(f)
            && lies_in(f, b) && is_file),
{
}

/// The photos that are flagged for conversion are the HEIC and HEIF files, and every other photo
/// in a folder has the type that picking it gives.
pub proof fn law_types_agree(extension: Seq<char>)
    ensures
        is_heic(extension) ==> folder_mime(extension) is Some,
        folder_mime(extension) matches Some(mime) ==> is_heic(extension) || mime == picked_mime(
            extension,
        ),
        picker_list().contains(extension) ==> folder_mime(extension) == Some(
            picked_mime(extension),
        ),
{
    reveal_strlit("png");
    reveal_strlit("gif");
    reveal_strlit("webp");
    reveal_strlit("bmp");
    reveal_strlit("jpg");
    reveal_strlit("jpeg");
    reveal_strlit("heic");
    reveal_strlit("heif");
}

/// An upload of a photo that was picked, or read from a folder, carries the photo's bytes.
pub proof fn law_photo_uploads(extension: Seq<char>, bytes: Seq<u8>)
    ensures
        base64_bytes(upload_text(data_url_of(picked_mime(extension), bytes))) == Ok::<
            Seq<u8>,
            Seq<char>,
        >(bytes),
        folder_mime(extension) matches Some(mime) ==> base64_bytes(
            upload_text(data_url_of(mime, bytes)),
        ) == Ok::<Seq<u8>, Seq<char>>(bytes),
{
    reveal_strlit("image/png");
    reveal_strlit("image/gif");
    reveal_strlit("image/webp");
    reveal_strlit("image/bmp");
    reveal_strlit("image/jpeg");
    reveal_strlit("image/heic");
    reveal_strlit("image/heif");
    law_data_url_round_trip(picked_mime(extension), bytes);
    if folder_mime(extension) is Some {
        law_data_url_round_trip(folder_mime(extension)->0, bytes);
    }
}

/// Every photo of a folder is handed out once, in the order of the entries, and nothing else is.
pub proof fn law_all_photos(entries: Seq<FolderEntry>, n: int)
    requires
        0 <= n <= entries.len(),
    ensures
        forall|k: int|
            #![trigger photos_among(entries, n)[k]]
            0 <= k < photos_among(entries, n).len() ==> {
                let photo = photos_among(entries, n)[k];
                0 <= photo.index < n && photo_of(entries[photo.index], photo.index) == Some(photo)
            },
        forall|j: int, k: int|
            0 <= j < k < photos_among(entries, n).len() ==> photos_among(entries, n)[j].index
                < photos_among(entries, n)[k].index,
        forall|i: int|
            #![trigger entries[i]]
            0 <= i < n && photo_of(entries[i], i) is Some ==> photos_among(entries, n).contains(
                photo_of(entries[i], i)->0,
            ),
    decreases n,
{
    if n > 0 {
        law_all_photos(entries, n - 1);
        let rest = photos_among(entries, n - 1);
        let all = photos_among(entries, n);
        assert forall|i: int|
            #![trigger entries[i]]
            0 <= i < n && photo_of(entries[i], i) is Some implies all.contains(
            photo_of(entries[i], i)->0,
        ) by {
            let photo = photo_of(entries[i], i)->0;
            if i < n - 1 {
                let k = choose|k: int| 0 <= k < rest.len() && rest[k] == photo;
                assert(all[k] == photo);
            } else {
                assert(all[all.len() - 1] == photo);
            }
        }
        assert forall|k: int| #![trigger all[k]] 0 <= k < all.len() implies {
            let photo = all[k];
            0 <= photo.index < n && photo_of(entries[photo.index], photo.index) == Some(photo)
        } by {
            if k < rest.len() {
                assert(all[k] == rest[k]);
            }
        }
        assert forall|j: int, k: int| 0 <= j < k < all.len() implies all[j].index
            < all[k].index by {
            assert(all[j] == rest[j]);
            if k < rest.len() {
                assert(all[k] == rest[k]);
            }
        }
    }
}

} // verus!
