//! A file to be uploaded: its path and upload metadata as plain
//! values.  Reading the file itself is the caller's work.

use vstd::prelude::*;

verus! {

/// Represents a file to be uploaded.
#[derive(Debug, Clone)]
pub struct FileUpload {
    /// Path to the file
    pub path: String,
    /// Field name for the upload
    pub field_name: String,
    /// Custom filename (if different from actual filename)
    pub custom_filename: Option<String>,
    /// MIME type
    pub mime_type: Option<String>,
    /// File size in bytes
    pub size: Option<u64>,
}

pub ghost struct FileUploadView {
    pub path: Seq<char>,
    pub field_name: Seq<char>,
    pub custom_filename: Option<Seq<char>>,
    pub mime_type: Option<Seq<char>>,
    pub size: Option<u64>,
}

impl View for FileUpload {
    type V = FileUploadView;

    open spec fn view(&self) -> FileUploadView {
        FileUploadView {
            path: self.path@,
            field_name: self.field_name@,
            custom_filename: match self.custom_filename {
                Some(ref f) => Some(f@),
                None => None,
            },
            mime_type: match self.mime_type {
                Some(ref m) => Some(m@),
                None => None,
            },
            size: self.size,
        }
    }
}

impl DeepView for FileUpload {
    type V = FileUploadView;

    open spec fn deep_view(&self) -> FileUploadView {
        self.view()
    }
}

/// Index just past the last path separator of `s`, scanning from `i`.
pub open spec fn after_last_slash(s: Seq<char>, i: int) -> int
    decreases s.len() - i when 0 <= i <= s.len() via after_last_slash_dec
{
    let d = slash_run(s, i);
    if d >= s.len() {
        i
    } else {
        after_last_slash(s, d + 1)
    }
}

#[via_fn]
proof fn after_last_slash_dec(s: Seq<char>, i: int) {
    if 0 <= i <= s.len() {
        lemma_slash_run(s, i);
    }
}

/// First position at or after `i` holding a slash, or the length.
pub open spec fn slash_run(s: Seq<char>, i: int) -> int
    decreases s.len() - i when 0 <= i <= s.len()
{
    if i >= s.len() || s[i] == '/' {
        i
    } else {
        slash_run(s, i + 1)
    }
}

/// The base name of a path: what follows its last slash.
pub open spec fn spec_base_name(s: Seq<char>) -> Seq<char> {
    s.subrange(after_last_slash(s, 0), s.len() as int)
}

/// What `FileUpload::filename` returns: the custom name when set, else
/// the path's base name, else `file` when that is empty.
pub open spec fn spec_filename(f: FileUploadView) -> Seq<char> {
    match f.custom_filename {
        Some(name) => name,
        None => {
            if spec_base_name(f.path).len() == 0 {
                "file"@
            } else {
                spec_base_name(f.path)
            }
        },
    }
}

proof fn lemma_slash_run(s: Seq<char>, i: int)
    requires
        0 <= i <= s.len(),
    ensures
        i <= slash_run(s, i) <= s.len(),
        forall|k: int| i <= k < slash_run(s, i) ==> #[trigger] s[k] != '/',
        slash_run(s, i) == s.len() || s[slash_run(s, i)] == '/',
    decreases s.len() - i,
{
    if i < s.len() && s[i] != '/' {
        lemma_slash_run(s, i + 1);
    }
}

proof fn lemma_after_last_slash_fix(s: Seq<char>, i: int, j: int)
    requires
        0 <= i <= j <= s.len(),
        j == 0 || s[j - 1] == '/',
        i <= j,
        forall|k: int| j <= k < s.len() ==> #[trigger] s[k] != '/',
        j == 0 ==> forall|k: int| i <= k < s.len() ==> #[trigger] s[k] != '/',
    ensures
        after_last_slash(s, i) == if i >= j {
            i
        } else {
            j
        },
    decreases s.len() - i,
{
    lemma_slash_run(s, i);
    let d = slash_run(s, i);
    if i >= j {
        assert(forall|k: int| i <= k < s.len() ==> #[trigger] s[k] != '/');
        assert(d == s.len());
    } else {
        assert(d <= j - 1);
        if d < s.len() {
            lemma_after_last_slash_fix(s, d + 1, j);
        }
    }
}

impl FileUpload {
    /// Describe a file upload from plain values; nothing is read from
    /// disk here.
    pub fn from_parts(path: String, field_name: String, mime_type: Option<String>, size: Option<
        u64,
    >) -> (r: Self)
        ensures
            r@.path == path@,
            r@.field_name == field_name@,
            r@.custom_filename is None,
            r@.mime_type == (match mime_type {
                Some(m) => Some(m@),
                None => None::<Seq<char>>,
            }),
            r@.size == size,
    {
        FileUpload { path, field_name, custom_filename: None, mime_type, size }
    }

    /// Set a custom filename.
    pub fn with_filename(self, filename: String) -> (r: Self)
        ensures
            r@ == (FileUploadView { custom_filename: Some(filename@), ..self@ }),
    {
        FileUpload {
            path: self.path,
            field_name: self.field_name,
            custom_filename: Some(filename),
            mime_type: self.mime_type,
            size: self.size,
        }
    }

    /// Set the MIME type.
    pub fn with_mime_type(self, mime_type: String) -> (r: Self)
        ensures
            r@ == (FileUploadView { mime_type: Some(mime_type@), ..self@ }),
    {
        FileUpload {
            path: self.path,
            field_name: self.field_name,
            custom_filename: self.custom_filename,
            mime_type: Some(mime_type),
            size: self.size,
        }
    }

    /// The filename to use for the upload.
    pub fn filename(&self) -> (r: String)
        ensures
            r@ == spec_filename(self@),
    {
        match self.custom_filename {
            Some(ref custom) => custom.clone(),
            None => {
                let p = self.path.as_str();
                let n = p.unicode_len();
                let mut cut: usize = 0;
                let mut i: usize = 0;
                while i < n
                    invariant
                        n == p@.len(),
                        0 <= cut <= i <= n,
                        cut == 0 || p@[cut - 1] == '/',
                        forall|k: int| cut <= k < i ==> #[trigger] p@[k] != '/',
                    decreases n - i,
                {
                    if p.get_char(i) == '/' {
                        cut = i + 1;
                    }
                    i += 1;
                }
                proof {
                    lemma_after_last_slash_fix(p@, 0, cut as int);
                }
                if cut == n {
                    proof {
                        assert(spec_base_name(p@) =~= Seq::<char>::empty());
                    }
                    let mut out = String::new();
                    out.append("file");
                    out
                } else {
                    let base = p.substring_char(cut, n);
                    assert(base@ == spec_base_name(p@));
                    base.to_owned()
                }
            },
        }
    }

    /// The MIME type, `application/octet-stream` when none is known.
    pub fn mime(&self) -> (r: String)
        ensures
            r@ == (match self@.mime_type {
                Some(m) => m,
                None => "application/octet-stream"@,
            }),
    {
        match self.mime_type {
            Some(ref m) => m.clone(),
            None => {
                let mut out = String::new();
                out.append("application/octet-stream");
                out
            },
        }
    }
}

} // verus!
