//! Form data: named text and file fields, with URL encoding.

use crate::numbers::dec_digit;
use crate::strmap::AssocMap;
use vstd::prelude::*;

verus! {

/// A single form field.
#[derive(Debug, Clone)]
pub enum FormField {
    /// Text field
    Text(String),
    /// File field (path to file)
    File(String),
}

pub ghost enum FormFieldView {
    Text(Seq<char>),
    File(Seq<char>),
}

impl View for FormField {
    type V = FormFieldView;

    open spec fn view(&self) -> FormFieldView {
        match self {
            FormField::Text(v) => FormFieldView::Text(v@),
            FormField::File(p) => FormFieldView::File(p@),
        }
    }
}

/// Characters that URL encoding keeps as they are.
pub open spec fn is_unreserved(c: char) -> bool {
    ('A' <= c && c <= 'Z') || ('a' <= c && c <= 'z') || ('0' <= c && c <= '9') || c == '-' || c
        == '_' || c == '.' || c == '~'
}

pub open spec fn hex_up(d: int) -> char {
    if d < 10 {
        dec_digit(d)
    } else if d == 10 {
        'A'
    } else if d == 11 {
        'B'
    } else if d == 12 {
        'C'
    } else if d == 13 {
        'D'
    } else if d == 14 {
        'E'
    } else {
        'F'
    }
}

/// How one character is URL encoded: unreserved characters stand,
/// blanks become `+`, anything else is percent-escaped on its low
/// byte.
pub open spec fn url_encode_char(c: char) -> Seq<char> {
    if is_unreserved(c) {
        seq![c]
    } else if c == ' ' {
        seq!['+']
    } else {
        seq!['%', hex_up((c as u8) as int / 16), hex_up((c as u8) as int % 16)]
    }
}

pub open spec fn url_encode(s: Seq<char>) -> Seq<char>
    decreases s.len(),
{
    if s.len() == 0 {
        Seq::empty()
    } else {
        url_encode_char(s.first()) + url_encode(s.drop_first())
    }
}

proof fn lemma_url_encode_push(s: Seq<char>, c: char)
    ensures
        url_encode(s.push(c)) == url_encode(s) + url_encode_char(c),
    decreases s.len(),
{
    if s.len() == 0 {
        assert(s.push(c).drop_first() =~= Seq::<char>::empty());
        assert(s.push(c).first() == c);
        assert(url_encode(s.push(c)) == url_encode_char(c) + url_encode(Seq::<char>::empty()));
        assert(url_encode_char(c) + Seq::<char>::empty() =~= url_encode_char(c));
        assert(url_encode(s.push(c)) =~= url_encode(s) + url_encode_char(c));
    } else {
        assert(s.push(c).drop_first() =~= s.drop_first().push(c));
        lemma_url_encode_push(s.drop_first(), c);
        assert(url_encode_char(s.first()) + (url_encode(s.drop_first()) + url_encode_char(c)) =~= (
        url_encode_char(s.first()) + url_encode(s.drop_first())) + url_encode_char(c));
        assert(url_encode(s.push(c)) =~= url_encode(s) + url_encode_char(c));
    }
}

fn hex_up_str(d: u8) -> (r: &'static str)
    requires
        d <= 15,
    ensures
        r@ =~= seq![hex_up(d as int)],
{
    proof {
        reveal_strlit("A");
        reveal_strlit("B");
        reveal_strlit("C");
        reveal_strlit("D");
        reveal_strlit("E");
        reveal_strlit("F");
    }
    if d < 10 {
        crate::numbers::dec_digit_str_u32(d as u32)
    } else if d == 10 {
        "A"
    } else if d == 11 {
        "B"
    } else if d == 12 {
        "C"
    } else if d == 13 {
        "D"
    } else if d == 14 {
        "E"
    } else {
        "F"
    }
}

/// URL-encode a string.
pub fn encode(s: &str) -> (r: String)
    ensures
        r@ == url_encode(s@),
{
    let n = s.unicode_len();
    let mut out = String::new();
    let mut i: usize = 0;
    proof {
        assert(s@.take(0) =~= Seq::<char>::empty());
    }
    while i < n
        invariant
            n == s@.len(),
            0 <= i <= n,
            out@ == url_encode(s@.take(i as int)),
        decreases n - i,
    {
        let c = s.get_char(i);
        let u = c as u32;
        if (65 <= u && u <= 90) || (97 <= u && u <= 122) || (48 <= u && u <= 57) || c == '-' || c
            == '_' || c == '.' || c == '~' {
            proof {
                assert('A' as u32 == 65 && 'Z' as u32 == 90 && 'a' as u32 == 97 && 'z' as u32
                    == 122 && '0' as u32 == 48 && '9' as u32 == 57);
            }
            let one = s.substring_char(i, i + 1);
            assert(one@ =~= url_encode_char(c));
            out.append(one);
        } else if c == ' ' {
            proof {
                reveal_strlit("+");
            }
            out.append("+");
            assert("+"@ =~= url_encode_char(c));
        } else {
            proof {
                reveal_strlit("%");
                assert('A' as u32 == 65 && 'Z' as u32 == 90 && 'a' as u32 == 97 && 'z' as u32
                    == 122 && '0' as u32 == 48 && '9' as u32 == 57);
            }
            let b = #[verifier::truncate] (u as u8);
            assert(b == c as u8);
            let ghost before = out@;
            out.append("%");
            out.append(hex_up_str(b / 16));
            out.append(hex_up_str(b % 16));
            assert(out@ =~= before + url_encode_char(c));
        }
        proof {
            assert(s@.take(i + 1) =~= s@.take(i as int).push(s@[i as int]));
            lemma_url_encode_push(s@.take(i as int), s@[i as int]);
        }
        i += 1;
    }
    proof {
        assert(s@.take(n as int) =~= s@);
    }
    out
}

/// The view of a field table's entries, in insertion order.
pub open spec fn field_entries(s: Seq<(String, FormField)>) -> Seq<(Seq<char>, FormFieldView)> {
    Seq::new(s.len(), |i: int| (s[i].0@, s[i].1@))
}

/// The `name=value` parts of the URL-encoded rendering: one per text
/// field, in order.
pub open spec fn urlencoded_parts(entries: Seq<(Seq<char>, FormFieldView)>) -> Seq<Seq<char>>
    decreases entries.len(),
{
    if entries.len() == 0 {
        Seq::empty()
    } else {
        let rest = urlencoded_parts(entries.drop_first());
        match entries.first().1 {
            FormFieldView::Text(v) => seq![
                url_encode(entries.first().0) + "="@ + url_encode(v),
            ] + rest,
            FormFieldView::File(_) => rest,
        }
    }
}

/// Parts joined by `&`.
pub open spec fn join_amp(parts: Seq<Seq<char>>) -> Seq<char>
    decreases parts.len(),
{
    if parts.len() == 0 {
        Seq::empty()
    } else if parts.len() == 1 {
        parts.first()
    } else {
        parts.first() + "&"@ + join_amp(parts.drop_first())
    }
}

proof fn lemma_urlencoded_parts_push(
    entries: Seq<(Seq<char>, FormFieldView)>,
    x: (Seq<char>, FormFieldView),
)
    ensures
        urlencoded_parts(entries.push(x)) == urlencoded_parts(entries) + (match x.1 {
            FormFieldView::Text(v) => seq![url_encode(x.0) + "="@ + url_encode(v)],
            FormFieldView::File(_) => Seq::<Seq<char>>::empty(),
        }),
    decreases entries.len(),
{
    let tail = match x.1 {
        FormFieldView::Text(v) => seq![url_encode(x.0) + "="@ + url_encode(v)],
        FormFieldView::File(_) => Seq::<Seq<char>>::empty(),
    };
    if entries.len() == 0 {
        assert(entries.push(x).drop_first() =~= Seq::<(Seq<char>, FormFieldView)>::empty());
        assert(entries.push(x).first() == x);
        assert(urlencoded_parts(entries.push(x).drop_first()) =~= Seq::<Seq<char>>::empty());
        match x.1 {
            FormFieldView::Text(v) => {
                assert(urlencoded_parts(entries.push(x)) =~= seq![
                    url_encode(x.0) + "="@ + url_encode(v),
                ]);
                assert(urlencoded_parts(entries) + tail =~= tail);
            },
            FormFieldView::File(_) => {
                assert(urlencoded_parts(entries.push(x)) =~= Seq::<Seq<char>>::empty());
                assert(urlencoded_parts(entries) + tail =~= Seq::<Seq<char>>::empty());
            },
        }
        assert(urlencoded_parts(entries.push(x)) =~= urlencoded_parts(entries) + tail);
    } else {
        assert(entries.push(x).drop_first() =~= entries.drop_first().push(x));
        lemma_urlencoded_parts_push(entries.drop_first(), x);
        match entries.first().1 {
            FormFieldView::Text(v) => {
                assert(seq![url_encode(entries.first().0) + "="@ + url_encode(v)] + (
                urlencoded_parts(entries.drop_first()) + tail) =~= (seq![
                    url_encode(entries.first().0) + "="@ + url_encode(v),
                ] + urlencoded_parts(entries.drop_first())) + tail);
            },
            FormFieldView::File(_) => {},
        }
        assert(urlencoded_parts(entries.push(x)) =~= urlencoded_parts(entries) + tail);
    }
}

proof fn lemma_join_amp_push(parts: Seq<Seq<char>>, p: Seq<char>)
    ensures
        parts.len() == 0 ==> join_amp(parts.push(p)) == p,
        parts.len() > 0 ==> join_amp(parts.push(p)) == join_amp(parts) + "&"@ + p,
    decreases parts.len(),
{
    if parts.len() == 0 {
        assert(parts.push(p).first() == p);
    } else {
        assert(parts.push(p).drop_first() =~= parts.drop_first().push(p));
        lemma_join_amp_push(parts.drop_first(), p);
        if parts.len() == 1 {
            assert(join_amp(parts.push(p)) == parts.first() + "&"@ + p);
        } else {
            assert(parts.first() + "&"@ + (join_amp(parts.drop_first()) + "&"@ + p) =~= (
            parts.first() + "&"@ + join_amp(parts.drop_first())) + "&"@ + p);
        }
    }
}

/// Form data: a flat table of named fields.
#[derive(Debug)]
pub struct FormData {
    fields: AssocMap<FormField>,
}

impl FormData {
    /// The stored fields, by name.
    pub closed spec fn field_map(&self) -> Map<Seq<char>, FormFieldView> {
        self.fields@
    }

    /// The stored entries, in insertion order.
    pub closed spec fn fields_seq(&self) -> Seq<(String, FormField)> {
        self.fields.seq()
    }

    /// The viewed entries, in insertion order.
    pub open spec fn entries_v(&self) -> Seq<(Seq<char>, FormFieldView)> {
        field_entries(self.fields_seq())
    }

    pub closed spec fn wf(&self) -> bool {
        self.fields.wf()
    }

    /// Create an empty form.
    pub fn new() -> (r: Self)
        ensures
            r.wf(),
            r.field_map() =~= Map::<Seq<char>, FormFieldView>::empty(),
            r.entries_v() =~= Seq::<(Seq<char>, FormFieldView)>::empty(),
    {
        let r = FormData { fields: AssocMap::new() };
        assert(r.entries_v() =~= Seq::<(Seq<char>, FormFieldView)>::empty());
        r
    }

    /// Add a text field.
    pub fn add_text(&mut self, name: String, value: String)
        requires
            old(self).wf(),
        ensures
            final(self).wf(),
            final(self).field_map() =~= old(self).field_map().insert(
                name@,
                FormFieldView::Text(value@),
            ),
    {
        self.fields.insert(name, FormField::Text(value));
    }

    /// Add a file field.
    pub fn add_file(&mut self, name: String, path: String)
        requires
            old(self).wf(),
        ensures
            final(self).wf(),
            final(self).field_map() =~= old(self).field_map().insert(
                name@,
                FormFieldView::File(path@),
            ),
    {
        self.fields.insert(name, FormField::File(path));
    }

    /// Look a field up.
    pub fn get(&self, name: &str) -> (r: Option<&FormField>)
        requires
            self.wf(),
        ensures
            match r {
                Some(f) => self.field_map().contains_key(name@) && f@ == self.field_map()[name@],
                None => !self.field_map().contains_key(name@),
            },
    {
        self.fields.get(name)
    }

    /// Remove a field.
    pub fn remove(&mut self, name: &str) -> (r: Option<FormField>)
        requires
            old(self).wf(),
        ensures
            final(self).wf(),
            final(self).field_map() =~= old(self).field_map().remove(name@),
            r is Some <==> old(self).field_map().contains_key(name@),
    {
        self.fields.remove(name)
    }

    /// All fields.
    pub fn fields(&self) -> (r: &AssocMap<FormField>)
        ensures
            r@ == self.field_map(),
            r.seq() == self.fields_seq(),
            self.wf() ==> r.wf(),
    {
        &self.fields
    }

    /// Number of fields.
    pub fn count(&self) -> (r: usize)
        requires
            self.wf(),
        ensures
            r == self.field_map().dom().len(),
    {
        self.fields.len()
    }

    /// Render the text fields as `application/x-www-form-urlencoded`.
    pub fn to_urlencoded(&self) -> (r: String)
        requires
            self.wf(),
        ensures
            r@ == join_amp(urlencoded_parts(self.entries_v())),
    {
        let entries = self.fields.entries();
        let n = entries.len();
        let ghost ev = self.entries_v();
        let mut out = String::new();
        let mut started = false;
        let mut i: usize = 0;
        proof {
            assert(ev.take(0) =~= Seq::<(Seq<char>, FormFieldView)>::empty());
        }
        while i < n
            invariant
                self.wf(),
                n == entries@.len(),
                entries@ == self.fields.seq(),
                ev == self.entries_v(),
                ev.len() == n,
                0 <= i <= n,
                started == (urlencoded_parts(ev.take(i as int)).len() > 0),
                out@ == join_amp(urlencoded_parts(ev.take(i as int))),
            decreases n - i,
        {
            let ghost pre = urlencoded_parts(ev.take(i as int));
            proof {
                assert(ev.take(i + 1) =~= ev.take(i as int).push(ev[i as int]));
                assert(ev[i as int] == (entries@[i as int].0@, entries@[i as int].1@));
                lemma_urlencoded_parts_push(ev.take(i as int), ev[i as int]);
            }
            match &entries[i].1 {
                FormField::Text(value) => {
                    let ghost part = url_encode(ev[i as int].0) + "="@ + url_encode(
                        ev[i as int].1->Text_0,
                    );
                    proof {
                        assert(ev[i as int].1 == FormFieldView::Text(value@));
                        assert(ev[i as int].0 == entries@[i as int].0@);
                        reveal_strlit("&");
                        reveal_strlit("=");
                        lemma_join_amp_push(pre, part);
                    }
                    if started {
                        out.append("&");
                    }
                    let en = encode(entries[i].0.as_str());
                    out.append(en.as_str());
                    out.append("=");
                    let evv = encode(value.as_str());
                    out.append(evv.as_str());
                    started = true;
                    proof {
                        assert(urlencoded_parts(ev.take(i + 1)) =~= pre.push(part));
                        assert(out@ =~= join_amp(pre.push(part)));
                        assert(out@ =~= join_amp(urlencoded_parts(ev.take(i + 1))));
                    }
                },
                FormField::File(_) => {
                    proof {
                        assert(urlencoded_parts(ev.take(i + 1)) =~= pre);
                    }
                },
            }
            i += 1;
        }
        proof {
            assert(ev.take(n as int) =~= ev);
        }
        out
    }

    /// Whether the form holds any file field.
    pub fn has_files(&self) -> (r: bool)
        requires
            self.wf(),
        ensures
            r == exists|i: int|
                0 <= i < self.entries_v().len() && (#[trigger] self.entries_v()[i]).1 is File,
    {
        let entries = self.fields.entries();
        let n = entries.len();
        let mut i: usize = 0;
        while i < n
            invariant
                n == entries@.len(),
                entries@ == self.fields.seq(),
                0 <= i <= n,
                forall|j: int| 0 <= j < i ==> !((#[trigger] self.entries_v()[j]).1 is File),
            decreases n - i,
        {
            proof {
                assert(self.entries_v()[i as int] == (entries@[i as int].0@, entries@[i as int].1@));
            }
            match &entries[i].1 {
                FormField::File(_) => {
                    assert((self.entries_v()[i as int]).1 is File);
                    return true;
                },
                FormField::Text(_) => {},
            }
            i += 1;
        }
        false
    }

    /// The text fields only, as a name-to-value table.
    pub fn text_fields(&self) -> (r: AssocMap<String>)
        requires
            self.wf(),
        ensures
            r.wf(),
            forall|k: Seq<char>|
                #[trigger] r@.contains_key(k) == (self.field_map().contains_key(k)
                    && self.field_map()[k] is Text),
            forall|k: Seq<char>|
                #[trigger] r@.contains_key(k) ==> r@[k] == self.field_map()[k]->Text_0,
    {
        let entries = self.fields.entries();
        let mut out: AssocMap<String> = AssocMap::new();
        let n = entries.len();
        let mut i: usize = 0;
        while i < n
            invariant
                self.wf(),
                n == entries@.len(),
                entries@ == self.fields.seq(),
                0 <= i <= n,
                out.wf(),
                forall|k: Seq<char>|
                    #[trigger] out@.contains_key(k) ==> (self.field_map().contains_key(k)
                        && self.field_map()[k] is Text && out@[k] == self.field_map()[k]->Text_0),
                forall|j: int|
                    0 <= j < i && (#[trigger] entries@[j]).1@ is Text ==> out@.contains_key(
                        entries@[j].0@,
                    ),
            decreases n - i,
        {
            proof {
                self.fields.lemma_entry_in_view(i as int);
            }
            match &entries[i].1 {
                FormField::Text(value) => {
                    out.insert(entries[i].0.clone(), value.clone());
                },
                FormField::File(_) => {},
            }
            i += 1;
        }
        proof {
            assert forall|k: Seq<char>|
                self.field_map().contains_key(k) && self.field_map()[k] is Text implies #[trigger] out@.contains_key(
                k,
            ) by {
                self.fields.lemma_view_key(k);
                let j = choose|j: int|
                    0 <= j < self.fields.seq().len() && (#[trigger] self.fields.seq()[j]).0@ == k;
                self.fields.lemma_entry_in_view(j);
                assert(entries@[j].1@ is Text);
            }
        }
        out
    }

    /// The file fields only, as a name-to-path table.
    pub fn file_fields(&self) -> (r: AssocMap<String>)
        requires
            self.wf(),
        ensures
            r.wf(),
            forall|k: Seq<char>|
                #[trigger] r@.contains_key(k) == (self.field_map().contains_key(k)
                    && self.field_map()[k] is File),
            forall|k: Seq<char>|
                #[trigger] r@.contains_key(k) ==> r@[k] == self.field_map()[k]->File_0,
    {
        let entries = self.fields.entries();
        let mut out: AssocMap<String> = AssocMap::new();
        let n = entries.len();
        let mut i: usize = 0;
        while i < n
            invariant
                self.wf(),
                n == entries@.len(),
                entries@ == self.fields.seq(),
                0 <= i <= n,
                out.wf(),
                forall|k: Seq<char>|
                    #[trigger] out@.contains_key(k) ==> (self.field_map().contains_key(k)
                        && self.field_map()[k] is File && out@[k] == self.field_map()[k]->File_0),
                forall|j: int|
                    0 <= j < i && (#[trigger] entries@[j]).1@ is File ==> out@.contains_key(
                        entries@[j].0@,
                    ),
            decreases n - i,
        {
            proof {
                self.fields.lemma_entry_in_view(i as int);
            }
            match &entries[i].1 {
                FormField::File(path) => {
                    out.insert(entries[i].0.clone(), path.clone());
                },
                FormField::Text(_) => {},
            }
            i += 1;
        }
        proof {
            assert forall|k: Seq<char>|
                self.field_map().contains_key(k) && self.field_map()[k] is File implies #[trigger] out@.contains_key(
                k,
            ) by {
                self.fields.lemma_view_key(k);
                let j = choose|j: int|
                    0 <= j < self.fields.seq().len() && (#[trigger] self.fields.seq()[j]).0@ == k;
                self.fields.lemma_entry_in_view(j);
                assert(entries@[j].1@ is File);
            }
        }
        out
    }

    /// Builder form of `add_text`.
    pub fn with_text(self, name: String, value: String) -> (r: Self)
        requires
            self.wf(),
        ensures
            r.wf(),
            r.field_map() =~= self.field_map().insert(name@, FormFieldView::Text(value@)),
    {
        let mut f = self;
        f.add_text(name, value);
        f
    }

    /// Builder form of `add_file`.
    pub fn with_file(self, name: String, path: String) -> (r: Self)
        requires
            self.wf(),
        ensures
            r.wf(),
            r.field_map() =~= self.field_map().insert(name@, FormFieldView::File(path@)),
    {
        let mut f = self;
        f.add_file(name, path);
        f
    }
}

impl Default for FormData {
    fn default() -> Self {
        FormData::new()
    }
}

} // verus!
