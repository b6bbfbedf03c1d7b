//! Multipart form-data body builder.
//!
//! The body is assembled from plain values; the caller supplies each
//! file's contents, having read them itself.

use crate::file_upload::{spec_filename, FileUpload, FileUploadView};
use crate::strmap::AssocMap;
use vstd::prelude::*;
use vstd::string::StringSliceAdditionalSpecFns;
use vstd::utf8::encode_utf8;

verus! {

/// The UTF-8 bytes of a text.
pub open spec fn bytes_of(s: Seq<char>) -> Seq<u8> {
    encode_utf8(s)
}

/// One text field's part, between boundaries.
pub open spec fn text_part(b: Seq<char>, name: Seq<char>, value: Seq<char>) -> Seq<u8> {
    bytes_of("--"@) + bytes_of(b) + bytes_of("\r\n"@) + bytes_of(
        "Content-Disposition: form-data; name=\""@,
    ) + bytes_of(name) + bytes_of("\"\r\n\r\n"@) + bytes_of(value) + bytes_of("\r\n"@)
}

/// The text parts, in field order.
pub open spec fn text_parts(b: Seq<char>, entries: Seq<(Seq<char>, Seq<char>)>) -> Seq<u8>
    decreases entries.len(),
{
    if entries.len() == 0 {
        Seq::empty()
    } else {
        text_parts(b, entries.drop_last()) + text_part(b, entries.last().0, entries.last().1)
    }
}

/// One file's part, between boundaries.
pub open spec fn file_part(b: Seq<char>, f: FileUploadView, content: Seq<u8>) -> Seq<u8> {
    bytes_of("--"@) + bytes_of(b) + bytes_of("\r\n"@) + bytes_of(
        "Content-Disposition: form-data; name=\""@,
    ) + bytes_of(f.field_name) + bytes_of("\"; filename=\""@) + bytes_of(spec_filename(f))
        + bytes_of("\"\r\n"@) + bytes_of("Content-Type: "@) + bytes_of(
        match f.mime_type {
            Some(m) => m,
            None => "application/octet-stream"@,
        },
    ) + bytes_of("\r\n\r\n"@) + content + bytes_of("\r\n"@)
}

/// The file parts, in declared order, paired with their contents.
pub open spec fn file_parts(
    b: Seq<char>,
    files: Seq<FileUploadView>,
    contents: Seq<Seq<u8>>,
) -> Seq<u8>
    decreases files.len(),
{
    if files.len() == 0 || contents.len() < files.len() {
        Seq::empty()
    } else {
        file_parts(b, files.drop_last(), contents.drop_last()) + file_part(
            b,
            files.last(),
            contents.last(),
        )
    }
}

/// The uploads a form's file fields describe, in field order: the path
/// named by the field, under the field's name, with nothing detected.
pub open spec fn spec_uploads_of(entries: Seq<(Seq<char>, crate::form::FormFieldView)>) -> Seq<
    FileUploadView,
>
    decreases entries.len(),
{
    if entries.len() == 0 {
        Seq::empty()
    } else {
        spec_uploads_of(entries.drop_last()) + (match entries.last().1 {
            crate::form::FormFieldView::File(p) => seq![
                FileUploadView {
                    path: p,
                    field_name: entries.last().0,
                    custom_filename: None,
                    mime_type: None,
                    size: None,
                },
            ],
            crate::form::FormFieldView::Text(_) => Seq::empty(),
        })
    }
}

/// The whole multipart body: text parts, file parts, closing boundary.
pub open spec fn spec_multipart_body(
    b: Seq<char>,
    texts: Seq<(Seq<char>, Seq<char>)>,
    files: Seq<FileUploadView>,
    contents: Seq<Seq<u8>>,
) -> Seq<u8> {
    text_parts(b, texts) + file_parts(b, files, contents) + bytes_of("--"@) + bytes_of(b)
        + bytes_of("--\r\n"@)
}

/// Current wall-clock nanoseconds, used only to salt the boundary.
/// Relies on `std::time::SystemTime`; nothing is assumed of the value.
#[verifier::external_body]
fn now_nanos() -> u64 {
    match std::time::SystemTime::now().duration_since(std::time::SystemTime::UNIX_EPOCH) {
        Ok(d) => d.as_nanos() as u64,
        Err(_) => 0,
    }
}

/// Append a text's UTF-8 bytes.
fn push_str_bytes(out: &mut Vec<u8>, s: &str)
    ensures
        final(out)@ == old(out)@ + bytes_of(s@),
{
    let bytes = s.as_bytes();
    let n = bytes.len();
    let mut i: usize = 0;
    proof {
        assert(old(out)@ + s.spec_bytes().subrange(0, 0) =~= old(out)@);
    }
    while i < n
        invariant
            n == s.spec_bytes().len(),
            bytes@ == s.spec_bytes(),
            0 <= i <= n,
            out@ == old(out)@ + s.spec_bytes().subrange(0, i as int),
        decreases n - i,
    {
        let b = bytes[i];
        out.push(b);
        proof {
            assert(s.spec_bytes().subrange(0, i + 1) =~= s.spec_bytes().subrange(0, i as int).push(
                s.spec_bytes()[i as int],
            ));
            assert(out@ =~= old(out)@ + s.spec_bytes().subrange(0, i + 1));
        }
        i += 1;
    }
    proof {
        assert(s.spec_bytes().subrange(0, n as int) =~= s.spec_bytes());
    }
}

/// Append raw bytes.
fn push_raw_bytes(out: &mut Vec<u8>, bytes: &Vec<u8>)
    ensures
        final(out)@ == old(out)@ + bytes@,
{
    let n = bytes.len();
    let mut i: usize = 0;
    proof {
        assert(old(out)@ + bytes@.subrange(0, 0) =~= old(out)@);
    }
    while i < n
        invariant
            n == bytes@.len(),
            0 <= i <= n,
            out@ == old(out)@ + bytes@.subrange(0, i as int),
        decreases n - i,
    {
        let b = bytes[i];
        out.push(b);
        proof {
            assert(bytes@.subrange(0, i + 1) =~= bytes@.subrange(0, i as int).push(
                bytes@[i as int],
            ));
            assert(out@ =~= old(out)@ + bytes@.subrange(0, i + 1));
        }
        i += 1;
    }
    proof {
        assert(bytes@.subrange(0, n as int) =~= bytes@);
    }
}

/// Builder for `multipart/form-data` requests.
#[derive(Debug)]
pub struct MultipartBuilder {
    boundary: String,
    text_fields: AssocMap<String>,
    file_uploads: Vec<FileUpload>,
}

impl MultipartBuilder {
    pub closed spec fn boundary_v(&self) -> Seq<char> {
        self.boundary@
    }

    /// The text fields, in insertion order.
    pub closed spec fn texts_v(&self) -> Seq<(Seq<char>, Seq<char>)> {
        Seq::new(
            self.text_fields.seq().len(),
            |i: int| (self.text_fields.seq()[i].0@, self.text_fields.seq()[i].1@),
        )
    }

    /// The file uploads, in declared order.
    pub closed spec fn files_v(&self) -> Seq<FileUploadView> {
        self.file_uploads.deep_view()
    }

    /// The text fields, by name.
    pub closed spec fn texts_map(&self) -> Map<Seq<char>, Seq<char>> {
        self.text_fields@
    }

    pub closed spec fn wf(&self) -> bool {
        self.text_fields.wf()
    }

    /// Create a new builder with a fresh boundary.
    pub fn new() -> (r: Self)
        ensures
            r.wf(),
            r.texts_v() =~= Seq::<(Seq<char>, Seq<char>)>::empty(),
            r.texts_map() =~= Map::<Seq<char>, Seq<char>>::empty(),
            r.files_v() =~= Seq::<FileUploadView>::empty(),
            exists|t: int|
                #![auto]
                r.boundary_v() == "----BazzounquesterBoundary"@ + crate::numbers::spec_u64_str(t),
    {
        let salt = now_nanos();
        let mut boundary = String::new();
        boundary.append("----BazzounquesterBoundary");
        let digits = crate::numbers::u64_to_string(salt);
        boundary.append(digits.as_str());
        let r = MultipartBuilder {
            boundary,
            text_fields: AssocMap::new(),
            file_uploads: Vec::new(),
        };
        proof {
            assert(r.files_v() =~= Seq::<FileUploadView>::empty());
            assert(r.texts_v() =~= Seq::<(Seq<char>, Seq<char>)>::empty());
            assert(r.boundary_v() == "----BazzounquesterBoundary"@
                + crate::numbers::spec_u64_str(salt as int));
        }
        r
    }

    /// Add a text field; a field of the same name is replaced.
    pub fn add_text(&mut self, name: String, value: String)
        requires
            old(self).wf(),
        ensures
            final(self).wf(),
            final(self).boundary_v() == old(self).boundary_v(),
            final(self).files_v() == old(self).files_v(),
            final(self).texts_map() =~= old(self).texts_map().insert(name@, value@),
    {
        self.text_fields.insert(name, value);
    }

    /// Add a file upload.
    pub fn add_file(&mut self, upload: FileUpload)
        requires
            old(self).wf(),
        ensures
            final(self).wf(),
            final(self).boundary_v() == old(self).boundary_v(),
            final(self).texts_v() == old(self).texts_v(),
            final(self).texts_map() == old(self).texts_map(),
            final(self).files_v() == old(self).files_v().push(upload@),
    {
        let ghost uv = upload@;
        self.file_uploads.push(upload);
        proof {
            assert(self.file_uploads.deep_view() =~= old(self).file_uploads.deep_view().push(uv));
        }
    }

    /// Number of text fields.
    pub fn text_field_count(&self) -> (r: usize)
        requires
            self.wf(),
        ensures
            r == self.texts_v().len(),
    {
        self.text_fields.len()
    }

    /// The boundary in use.
    pub fn boundary(&self) -> (r: &str)
        ensures
            r@ == self.boundary_v(),
    {
        self.boundary.as_str()
    }

    /// The `Content-Type` header value announcing the boundary.
    pub fn content_type(&self) -> (r: String)
        ensures
            r@ == "multipart/form-data; boundary="@ + self.boundary_v(),
    {
        let mut out = String::new();
        out.append("multipart/form-data; boundary=");
        out.append(self.boundary.as_str());
        out
    }

    /// Assemble the multipart body.  The caller hands over each file's
    /// contents, in the order the files were added.
    #[verifier::rlimit(100)]
    pub fn build(&self, file_contents: &Vec<Vec<u8>>) -> (r: Vec<u8>)
        requires
            self.wf(),
            file_contents@.len() == self.files_v().len(),
        ensures
            r@ == spec_multipart_body(
                self.boundary_v(),
                self.texts_v(),
                self.files_v(),
                file_contents.deep_view(),
            ),
    {
        let mut body: Vec<u8> = Vec::new();
        let ghost b = self.boundary_v();
        let ghost texts = self.texts_v();
        let entries = self.text_fields.entries();
        let tn = entries.len();
        let mut i: usize = 0;
        proof {
            assert(texts.take(0) =~= Seq::<(Seq<char>, Seq<char>)>::empty());
            assert(body@ =~= Seq::<u8>::empty() + text_parts(b, texts.take(0)));
            assert(body@ =~= text_parts(b, texts.take(0)));
        }
        while i < tn
            invariant
                self.wf(),
                tn == entries@.len(),
                entries@ == self.text_fields.seq(),
                b == self.boundary_v(),
                texts == self.texts_v(),
                texts.len() == tn,
                0 <= i <= tn,
                body@ == text_parts(b, texts.take(i as int)),
            decreases tn - i,
        {
            proof {
                assert(texts[i as int] == (entries@[i as int].0@, entries@[i as int].1@));
                assert(texts.take(i + 1).drop_last() =~= texts.take(i as int));
                assert(texts.take(i + 1).last() == texts[i as int]);
            }
            push_str_bytes(&mut body, "--");
            push_str_bytes(&mut body, self.boundary.as_str());
            push_str_bytes(&mut body, "\r\n");
            push_str_bytes(&mut body, "Content-Disposition: form-data; name=\"");
            push_str_bytes(&mut body, entries[i].0.as_str());
            push_str_bytes(&mut body, "\"\r\n\r\n");
            push_str_bytes(&mut body, entries[i].1.as_str());
            push_str_bytes(&mut body, "\r\n");
            proof {
                assert(body@ =~= text_parts(b, texts.take(i + 1)));
            }
            i += 1;
        }
        proof {
            assert(texts.take(tn as int) =~= texts);
        }
        let ghost files = self.files_v();
        let ghost contents = file_contents.deep_view();
        let fk = self.file_uploads.len();
        let mut j: usize = 0;
        proof {
            assert(files.take(0) =~= Seq::<FileUploadView>::empty());
            assert(contents.take(0) =~= Seq::<Seq<u8>>::empty());
            assert(body@ + Seq::<u8>::empty() =~= body@);
            assert(file_parts(b, files.take(0), contents.take(0)) =~= Seq::<u8>::empty());
        }
        while j < fk
            invariant
                self.wf(),
                fk == self.file_uploads@.len(),
                b == self.boundary_v(),
                texts == self.texts_v(),
                files == self.files_v(),
                contents == file_contents.deep_view(),
                files.len() == fk,
                contents.len() == fk,
                file_contents@.len() == fk,
                0 <= j <= fk,
                body@ == text_parts(b, texts) + file_parts(
                    b,
                    files.take(j as int),
                    contents.take(j as int),
                ),
            decreases fk - j,
        {
            let ghost prev = body@;
            proof {
                assert(files[j as int] == self.file_uploads@[j as int]@);
                assert(contents[j as int] == file_contents@[j as int]@);
                assert(files.take(j + 1).drop_last() =~= files.take(j as int));
                assert(contents.take(j + 1).drop_last() =~= contents.take(j as int));
                assert(files.take(j + 1).last() == files[j as int]);
                assert(contents.take(j + 1).last() == contents[j as int]);
            }
            push_str_bytes(&mut body, "--");
            push_str_bytes(&mut body, self.boundary.as_str());
            push_str_bytes(&mut body, "\r\n");
            push_str_bytes(&mut body, "Content-Disposition: form-data; name=\"");
            push_str_bytes(&mut body, self.file_uploads[j].field_name.as_str());
            push_str_bytes(&mut body, "\"; filename=\"");
            let fname = self.file_uploads[j].filename();
            push_str_bytes(&mut body, fname.as_str());
            push_str_bytes(&mut body, "\"\r\n");
            push_str_bytes(&mut body, "Content-Type: ");
            let mime = self.file_uploads[j].mime();
            push_str_bytes(&mut body, mime.as_str());
            push_str_bytes(&mut body, "\r\n\r\n");
            push_raw_bytes(&mut body, &file_contents[j]);
            push_str_bytes(&mut body, "\r\n");
            proof {
                assert(body@ =~= prev + file_part(b, files[j as int], contents[j as int]));
                assert(prev + file_part(b, files[j as int], contents[j as int]) =~= text_parts(
                    b,
                    texts,
                ) + file_parts(b, files.take(j + 1), contents.take(j + 1)));
            }
            j += 1;
        }
        proof {
            assert(files.take(fk as int) =~= files);
            assert(contents.take(fk as int) =~= contents);
        }
        push_str_bytes(&mut body, "--");
        push_str_bytes(&mut body, self.boundary.as_str());
        push_str_bytes(&mut body, "--\r\n");
        proof {
            assert(body@ =~= spec_multipart_body(b, texts, files, contents));
        }
        body
    }

    /// Build from form data: text fields carry over, file fields become
    /// uploads of the named paths.
    pub fn from_form_data(form: &crate::form::FormData) -> (r: Self)
        requires
            form.wf(),
        ensures
            r.wf(),
            r.files_v() == spec_uploads_of(form.entries_v()),
            forall|k: Seq<char>|
                #[trigger] r.texts_map().contains_key(k) == (form.field_map().contains_key(k)
                    && form.field_map()[k] is Text),
            forall|k: Seq<char>|
                #[trigger] r.texts_map().contains_key(k) ==> r.texts_map()[k]
                    == form.field_map()[k]->Text_0,
    {
        let mut builder = Self::new();
        let text_table = form.text_fields();
        let text_entries = text_table.entries();
        let tn = text_entries.len();
        let mut i: usize = 0;
        proof {
            assert(builder.texts_map() =~= Map::<Seq<char>, Seq<char>>::empty());
        }
        while i < tn
            invariant
                text_table.wf(),
                tn == text_entries@.len(),
                text_entries@ == text_table.seq(),
                0 <= i <= tn,
                builder.wf(),
                builder.files_v() == Seq::<FileUploadView>::empty(),
                forall|k: Seq<char>|
                    #[trigger] builder.texts_map().contains_key(k) ==> text_table@.contains_key(k)
                        && builder.texts_map()[k] == text_table@[k],
                forall|j: int|
                    0 <= j < i ==> builder.texts_map().contains_key(
                        (#[trigger] text_entries@[j]).0@,
                    ),
            decreases tn - i,
        {
            proof {
                text_table.lemma_entry_in_view(i as int);
            }
            builder.add_text(text_entries[i].0.clone(), text_entries[i].1.clone());
            i += 1;
        }
        proof {
            assert forall|k: Seq<char>| #[trigger] text_table@.contains_key(k) implies
                builder.texts_map().contains_key(k) by {
                text_table.lemma_view_key(k);
                let j = choose|j: int|
                    0 <= j < text_table.seq().len() && (#[trigger] text_table.seq()[j]).0@ == k;
                assert(builder.texts_map().contains_key(text_entries@[j].0@));
            }
            assert forall|k: Seq<char>|
                #[trigger] builder.texts_map().contains_key(k) == (form.field_map().contains_key(
                k,
            ) && form.field_map()[k] is Text) by {
                assert(text_table@.contains_key(k) == (form.field_map().contains_key(k)
                    && form.field_map()[k] is Text));
            }
            assert forall|k: Seq<char>|
                #[trigger] builder.texts_map().contains_key(k) implies builder.texts_map()[k]
                == form.field_map()[k]->Text_0 by {
                assert(text_table@.contains_key(k) && builder.texts_map()[k] == text_table@[k]);
            }
        }
        let entries = form.fields().entries();
        let n = entries.len();
        let ghost ev = form.entries_v();
        let mut j: usize = 0;
        proof {
            assert(ev.take(0) =~= Seq::<(Seq<char>, crate::form::FormFieldView)>::empty());
            assert(builder.files_v() =~= spec_uploads_of(ev.take(0)));
        }
        while j < n
            invariant
                form.wf(),
                n == entries@.len(),
                entries@ == form.fields_seq(),
                ev == form.entries_v(),
                ev.len() == n,
                0 <= j <= n,
                builder.wf(),
                builder.files_v() == spec_uploads_of(ev.take(j as int)),
                forall|k: Seq<char>|
                    #[trigger] builder.texts_map().contains_key(k) == (
                    form.field_map().contains_key(k) && form.field_map()[k] is Text),
                forall|k: Seq<char>|
                    #[trigger] builder.texts_map().contains_key(k) ==> builder.texts_map()[k]
                        == form.field_map()[k]->Text_0,
            decreases n - j,
        {
            proof {
                assert(ev[j as int] == (entries@[j as int].0@, entries@[j as int].1@));
                assert(ev.take(j + 1).drop_last() =~= ev.take(j as int));
                assert(ev.take(j + 1).last() == ev[j as int]);
            }
            match &entries[j].1 {
                crate::form::FormField::File(path) => {
                    let upload = FileUpload::from_parts(
                        path.clone(),
                        entries[j].0.clone(),
                        None,
                        None,
                    );
                    builder.add_file(upload);
                    proof {
                        assert(builder.files_v() =~= spec_uploads_of(ev.take(j + 1)));
                    }
                },
                crate::form::FormField::Text(_) => {
                    proof {
                        assert(spec_uploads_of(ev.take(j + 1)) =~= spec_uploads_of(
                            ev.take(j as int),
                        ) + Seq::<FileUploadView>::empty());
                        assert(builder.files_v() =~= spec_uploads_of(ev.take(j + 1)));
                    }
                },
            }
            j += 1;
        }
        proof {
            assert(ev.take(n as int) =~= ev);
        }
        builder
    }

    /// Builder form of `add_text`.
    pub fn with_text(self, name: String, value: String) -> (r: Self)
        requires
            self.wf(),
        ensures
            r.wf(),
            r.boundary_v() == self.boundary_v(),
            r.files_v() == self.files_v(),
            r.texts_map() =~= self.texts_map().insert(name@, value@),
    {
        let mut m = self;
        m.add_text(name, value);
        m
    }

    /// Builder form of `add_file`.
    pub fn with_file(self, upload: FileUpload) -> (r: Self)
        requires
            self.wf(),
        ensures
            r.wf(),
            r.boundary_v() == self.boundary_v(),
            r.texts_map() == self.texts_map(),
            r.files_v() == self.files_v().push(upload@),
    {
        let mut m = self;
        m.add_file(upload);
        m
    }
}

impl Default for MultipartBuilder {
    fn default() -> Self {
        MultipartBuilder::new()
    }
}

} // verus!
