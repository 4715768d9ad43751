//! Generation of the dataset CSV files from folders of images: which files
//! are read, which label each gets, and the record written for each.

use vstd::prelude::*;
use crate::csv_layout::{csv_record, record_text, texts, header_text, PIXEL_FIELDS};
use crate::decimal::{decimal, decimal_string};
use crate::imaging::{resize_for_models, resized_rgb_nearest, MODEL_IMAGE_SIDE};
use crate::labels::{class_of_name, label_for_dir_name};
use crate::text::{ascii_lowered, same_text, same_text_ignoring_ascii_case};

verus! {

/// How the label field of a record is written.
#[derive(Clone, Copy, Debug, PartialEq, Eq, Structural)]
pub enum LabelScheme {
    /// The class index (0 to 35) named by the image's folder, in decimal.
    ClassIndex,
    /// The name of the image's folder, as it is.
    FolderName,
}

/// A dataset CSV file to generate: the folder whose images it holds, the
/// file to write, and how labels are written.
pub struct DatasetJob {
    pub source_dir: String,
    pub output_csv: String,
    pub labels: LabelScheme,
}

/// Whether `ext`, in any case, is `png`, `jpg`, `jpeg` or `bmp`.
pub open spec fn dataset_image_extension(ext: Seq<char>) -> bool {
    let l = ascii_lowered(ext);
    ||| l == seq!['p', 'n', 'g']
    ||| l == seq!['j', 'p', 'g']
    ||| l == seq!['j', 'p', 'e', 'g']
    ||| l == seq!['b', 'm', 'p']
}

/// Whether `ext` is exactly `jpg`, `jpeg` or `png`.
pub open spec fn folder_image_extension(ext: Seq<char>) -> bool {
    ||| ext == seq!['j', 'p', 'g']
    ||| ext == seq!['j', 'p', 'e', 'g']
    ||| ext == seq!['p', 'n', 'g']
}

/// The label field of a folder entry under `scheme`, or `None` when the entry
/// is skipped: it is not a file, has no image extension, has no parent
/// folder, or (for class indices) its folder names no class.
pub open spec fn entry_label_text(
    scheme: LabelScheme,
    is_file: bool,
    extension: Option<Seq<char>>,
    parent_name: Option<Seq<char>>,
) -> Option<Seq<char>> {
    if !is_file || extension is None || !dataset_image_extension(extension->0) {
        None
    } else {
        match parent_name {
            None => None,
            Some(name) => match scheme {
                LabelScheme::FolderName => Some(name),
                LabelScheme::ClassIndex => match class_of_name(name) {
                    Some(l) => Some(decimal(l)),
                    None => None,
                },
            },
        }
    }
}

/// Whether a file with this extension is read into a dataset CSV file: `png`,
/// `jpg`, `jpeg` or `bmp` in any case. (Comparing ASCII-lowered text gives the
/// same answer as comparing the Unicode lower case, since no other character
/// lowers to one of these letters.)
pub fn is_dataset_image_extension(ext: &str) -> (accepted: bool)
    ensures
        accepted == dataset_image_extension(ext@),
{
    proof {
        reveal_strlit("png");
        reveal_strlit("jpg");
        reveal_strlit("jpeg");
        reveal_strlit("bmp");
        assert("png"@ =~= seq!['p', 'n', 'g']);
        assert("jpg"@ =~= seq!['j', 'p', 'g']);
        assert("jpeg"@ =~= seq!['j', 'p', 'e', 'g']);
        assert("bmp"@ =~= seq!['b', 'm', 'p']);
    }
    same_text_ignoring_ascii_case(ext, "png") || same_text_ignoring_ascii_case(ext, "jpg")
        || same_text_ignoring_ascii_case(ext, "jpeg") || same_text_ignoring_ascii_case(ext, "bmp")
}

/// Whether a file with this extension is loaded from a dataset folder:
/// exactly `jpg`, `jpeg` or `png`.
pub fn is_folder_image_extension(ext: &str) -> (accepted: bool)
    ensures
        accepted == folder_image_extension(ext@),
{
    proof {
        reveal_strlit("png");
        reveal_strlit("jpg");
        reveal_strlit("jpeg");
        assert("png"@ =~= seq!['p', 'n', 'g']);
        assert("jpg"@ =~= seq!['j', 'p', 'g']);
        assert("jpeg"@ =~= seq!['j', 'p', 'e', 'g']);
    }
    same_text(ext, "jpg") || same_text(ext, "jpeg") || same_text(ext, "png")
}

/// The job that writes `dataset_train.csv` from the images under
/// `dataset/train`, labelled by class index.
pub fn generate_dataset_train() -> (job: DatasetJob)
    ensures
        job.source_dir@ == "dataset/train"@,
        job.output_csv@ == "dataset_train.csv"@,
        job.labels == LabelScheme::ClassIndex,
{
    DatasetJob {
        source_dir: String::from_str("dataset/train"),
        output_csv: String::from_str("dataset_train.csv"),
        labels: LabelScheme::ClassIndex,
    }
}

/// The job that writes `dataset_test.csv` from the images under
/// `dataset/test`, labelled by class index.
pub fn generate_dataset_test() -> (job: DatasetJob)
    ensures
        job.source_dir@ == "dataset/test"@,
        job.output_csv@ == "dataset_test.csv"@,
        job.labels == LabelScheme::ClassIndex,
{
    DatasetJob {
        source_dir: String::from_str("dataset/test"),
        output_csv: String::from_str("dataset_test.csv"),
        labels: LabelScheme::ClassIndex,
    }
}

/// The job that writes `dataset_rgb.csv` from the images under `dataset`,
/// labelled by folder name.
pub fn generate_dataset() -> (job: DatasetJob)
    ensures
        job.source_dir@ == "dataset"@,
        job.output_csv@ == "dataset_rgb.csv"@,
        job.labels == LabelScheme::FolderName,
{
    DatasetJob {
        source_dir: String::from_str("dataset"),
        output_csv: String::from_str("dataset_rgb.csv"),
        labels: LabelScheme::FolderName,
    }
}

/// The text of an optional string.
pub open spec fn opt_text(s: Option<&str>) -> Option<Seq<char>> {
    match s {
        Some(t) => Some(t@),
        None => None,
    }
}

impl DatasetJob {
    /// The label field of a folder entry, or `None` when the entry is not
    /// written: see `entry_label_text`.
    pub fn entry_label(&self, is_file: bool, extension: Option<&str>, parent_name: Option<&str>) -> (label: Option<String>)
        ensures
            match label {
                Some(s) => entry_label_text(self.labels, is_file, opt_text(extension), opt_text(parent_name)) == Some(s@),
                None => entry_label_text(self.labels, is_file, opt_text(extension), opt_text(parent_name)) is None,
            },
    {
        if !is_file {
            return None;
        }
        let ext = match extension {
            Some(e) => e,
            None => return None,
        };
        if !is_dataset_image_extension(ext) {
            return None;
        }
        let name = match parent_name {
            Some(n) => n,
            None => return None,
        };
        match self.labels {
            LabelScheme::FolderName => Some(String::from_str(name)),
            LabelScheme::ClassIndex => match label_for_dir_name(name) {
                Some(l) => Some(decimal_string(l)),
                None => None,
            },
        }
    }

    /// The record of a `width` x `height` RGB image: the image resized to
    /// 64x64 (nearest neighbour), then its fields and the label field.
    pub fn image_record(&self, width: u32, height: u32, rgb: Vec<u8>, label: String) -> (record: Vec<String>)
        requires
            rgb@.len() == 3 * (width as int) * (height as int),
        ensures
            texts(record@) == record_text(resized_rgb_nearest(width, height, rgb@, MODEL_IMAGE_SIDE, MODEL_IMAGE_SIDE), label@),
            texts(record@).len() == header_text().len(),
    {
        let resized = resize_for_models(width, height, rgb);
        let record = csv_record(resized.as_slice(), label);
        assert(resized@.len() == PIXEL_FIELDS);
        record
    }
}

/// Only the three lower-case extensions `jpg`, `jpeg` and `png` are loaded
/// from a dataset folder; any other text (such as `gif` or `PNG`) is not.
pub proof fn lemma_folder_extensions_exact(ext: Seq<char>)
    ensures
        folder_image_extension(ext) <==> (ext == seq!['j', 'p', 'g'] || ext == seq!['j', 'p', 'e', 'g']
            || ext == seq!['p', 'n', 'g']),
        folder_image_extension(ext) ==> dataset_image_extension(ext),
        !folder_image_extension(seq!['g', 'i', 'f']),
        !folder_image_extension(seq!['P', 'N', 'G']),
{
    if folder_image_extension(ext) {
        lemma_lowered_lower_word(ext);
    }
    assert(seq!['g', 'i', 'f'] != seq!['j', 'p', 'g']);
    assert(seq!['g', 'i', 'f'] != seq!['p', 'n', 'g']);
    assert(seq!['P', 'N', 'G'] != seq!['p', 'n', 'g']);
    assert(seq!['P', 'N', 'G'] != seq!['j', 'p', 'g']);
}

/// A word of lower-case ASCII letters is its own lower case.
proof fn lemma_lowered_lower_word(ext: Seq<char>)
    requires
        forall|i: int| 0 <= i < ext.len() ==> 'a' <= #[trigger] ext[i] && ext[i] <= 'z',
    ensures
        ascii_lowered(ext) == ext,
{
    assert(ascii_lowered(ext) =~= ext);
}

/// A dataset file's extension is accepted in any letter case exactly when
/// its lower case is `png`, `jpg`, `jpeg` or `bmp`: the case of its letters
/// does not matter, and among lower-case words the accepted ones are the
/// folder extensions and `bmp`.
pub proof fn lemma_dataset_extensions_ignore_case(ext: Seq<char>)
    ensures
        dataset_image_extension(ext) == dataset_image_extension(ascii_lowered(ext)),
        ascii_lowered(ext) == ext ==> (dataset_image_extension(ext) <==> (folder_image_extension(ext)
            || ext == seq!['b', 'm', 'p'])),
        !dataset_image_extension(seq!['g', 'i', 'f']),
{
    assert(ascii_lowered(ascii_lowered(ext)) =~= ascii_lowered(ext));
    assert(ascii_lowered(seq!['g', 'i', 'f']) =~= seq!['g', 'i', 'f']);
    assert(seq!['g', 'i', 'f'] != seq!['j', 'p', 'g']);
    assert(seq!['g', 'i', 'f'] != seq!['p', 'n', 'g']);
    assert(seq!['g', 'i', 'f'] != seq!['b', 'm', 'p']);
}

/// An entry that is not a file, has no extension, has an extension that is
/// not an image's, or has no parent folder is never written, whatever the
/// label scheme.
pub proof fn lemma_skipped_entries(
    scheme: LabelScheme,
    is_file: bool,
    extension: Option<Seq<char>>,
    parent_name: Option<Seq<char>>,
)
    ensures
        !is_file ==> entry_label_text(scheme, is_file, extension, parent_name) is None,
        extension is None ==> entry_label_text(scheme, is_file, extension, parent_name) is None,
        (extension matches Some(e) && !dataset_image_extension(e)) ==> entry_label_text(
            scheme,
            is_file,
            extension,
            parent_name,
        ) is None,
        parent_name is None ==> entry_label_text(scheme, is_file, extension, parent_name) is None,
{
}

/// Labelled by folder name, a written entry's label is its parent folder's
/// name, unchanged, and every image file with a parent folder is written.
pub proof fn lemma_folder_name_labels(is_file: bool, extension: Option<Seq<char>>, parent_name: Option<Seq<char>>)
    ensures
        entry_label_text(LabelScheme::FolderName, is_file, extension, parent_name) matches Some(t)
            ==> parent_name == Some(t),
        (is_file && extension is Some && dataset_image_extension(extension->0) && parent_name is Some)
            ==> entry_label_text(LabelScheme::FolderName, is_file, extension, parent_name) == parent_name,
{
}

/// Labelled by class index, an image file in folder `name` is written exactly
/// when the name's first character is an upper-case letter or a digit, and
/// its label is the decimal class of that first character: `c - 'A'` for a
/// letter `c`, `c - '0' + 26` for a digit `c`.
pub proof fn lemma_class_index_labels(extension: Seq<char>, name: Seq<char>)
    requires
        dataset_image_extension(extension),
    ensures
        name.len() > 0 && 'A' <= name[0] && name[0] <= 'Z' ==> entry_label_text(
            LabelScheme::ClassIndex,
            true,
            Some(extension),
            Some(name),
        ) == Some(decimal((name[0] as nat - 'A' as nat) as nat)),
        name.len() > 0 && '0' <= name[0] && name[0] <= '9' ==> entry_label_text(
            LabelScheme::ClassIndex,
            true,
            Some(extension),
            Some(name),
        ) == Some(decimal((name[0] as nat - '0' as nat + 26) as nat)),
        name.len() == 0 || !(('A' <= name[0] && name[0] <= 'Z') || ('0' <= name[0] && name[0] <= '9'))
            ==> entry_label_text(LabelScheme::ClassIndex, true, Some(extension), Some(name)) is None,
{
}

/// Every entry written with class indices is also written with folder names:
/// class indices only drop the folders that name no class.
pub proof fn lemma_class_index_entries_are_folder_entries(
    is_file: bool,
    extension: Option<Seq<char>>,
    parent_name: Option<Seq<char>>,
)
    ensures
        entry_label_text(LabelScheme::ClassIndex, is_file, extension, parent_name) is Some
            ==> entry_label_text(LabelScheme::FolderName, is_file, extension, parent_name) is Some,
{
}

} // verus!
