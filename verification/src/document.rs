use vstd::prelude::*;
use crate::catalog::{format_size, size_text};
use crate::text::{ascii_lower_text, chars_slice, push_all, str_chars, string_from_chars};

verus! {

/// What `Path::file_name` returns for a path, read back as text.
pub uninterp spec fn path_file_name(path: Seq<char>) -> Option<Seq<char>>;

pub open spec fn text_of(o: Option<String>) -> Option<Seq<char>> {
    match o {
        Some(s) => Some(s@),
        None => None,
    }
}

/// Calls `Path::file_name` and reads the name as UTF-8; a name taken from a
/// `&str` path is a piece of it cut at a separator, so it always reads back.
#[verifier::external_body]
fn file_name(path: &str) -> (r: Option<String>)
    ensures
        text_of(r) == path_file_name(path@),
{
    match std::path::Path::new(path).file_name() {
        Some(name) => match name.to_str() {
            Some(text) => Some(text.to_string()),
            None => None,
        },
        None => None,
    }
}

/// The position of the last `.` in a file name, or -1.
pub open spec fn last_dot(name: Seq<char>) -> int
    decreases name.len(),
{
    if name.len() == 0 {
        -1
    } else if name.last() == '.' {
        name.len() - 1
    } else {
        last_dot(name.drop_last())
    }
}

/// `Path::file_stem` on a file name, as std documents it: the whole name
/// when it has no `.` or its only `.` leads it, otherwise what comes before
/// the last `.`.
pub open spec fn name_stem(name: Seq<char>) -> Seq<char> {
    if last_dot(name) <= 0 {
        name
    } else {
        name.take(last_dot(name))
    }
}

/// `Path::extension` on a file name, as std documents it: nothing when the
/// name has no `.` or its only `.` leads it, otherwise what comes after the
/// last `.`.
pub open spec fn name_extension(name: Seq<char>) -> Option<Seq<char>> {
    if last_dot(name) <= 0 {
        None
    } else {
        Some(name.skip(last_dot(name) + 1))
    }
}

/// The stem of a path: that of its file name, if it has one.
pub open spec fn path_file_stem(path: Seq<char>) -> Option<Seq<char>> {
    match path_file_name(path) {
        Some(name) => Some(name_stem(name)),
        None => None,
    }
}

/// The extension of a path: that of its file name, if it has one.
pub open spec fn path_extension(path: Seq<char>) -> Option<Seq<char>> {
    match path_file_name(path) {
        Some(name) => name_extension(name),
        None => None,
    }
}

proof fn lemma_last_dot_tail(name: Seq<char>, i: int)
    requires
        0 <= i <= name.len(),
        forall|j: int| i <= j < name.len() ==> name[j] != '.',
    ensures
        last_dot(name) == last_dot(name.take(i)),
    decreases name.len() - i,
{
    if i < name.len() {
        assert(name.take(name.len() - 1) =~= name.drop_last());
        lemma_last_dot_tail(name.drop_last(), i);
        assert(name.drop_last().take(i) =~= name.take(i));
    } else {
        assert(name.take(i) =~= name);
    }
}

/// Splits a file name into its stem and extension, as `Path` does.
pub fn split_file_name(name: &str) -> (r: (String, Option<String>))
    ensures
        r.0@ == name_stem(name@),
        text_of(r.1) == name_extension(name@),
{
    let chars = str_chars(name);
    let mut i: usize = chars.len();
    while i > 0 && chars[i - 1] != '.'
        invariant
            i <= chars@.len(),
            chars@ == name@,
            forall|j: int| i <= j < chars@.len() ==> chars@[j] != '.',
        decreases i,
    {
        i = i - 1;
    }
    proof {
        lemma_last_dot_tail(chars@, i as int);
        if i > 0 {
            let t = chars@.take(i as int);
            assert(t.last() == '.');
        } else {
            assert(chars@.take(0) =~= Seq::<char>::empty());
        }
    }
    if i <= 1 {
        (string_from_chars(&chars), None)
    } else {
        let stem = chars_slice(chars.as_slice(), 0, i - 1);
        let ext = chars_slice(chars.as_slice(), i, chars.len());
        proof {
            assert(stem@ =~= name@.take(i - 1));
            assert(ext@ =~= name@.skip(i as int));
        }
        (string_from_chars(&stem), Some(string_from_chars(&ext)))
    }
}

fn to_ascii_lowercase(s: &Vec<char>) -> (r: Vec<char>)
    ensures
        r@ == ascii_lower_text(s@),
{
    let mut out: Vec<char> = Vec::new();
    let mut i: usize = 0;
    while i < s.len()
        invariant
            i <= s@.len(),
            out@ =~= ascii_lower_text(s@.subrange(0, i as int)),
        decreases s.len() - i,
    {
        let c = s[i];
        let lowered = if 'A' <= c && c <= 'Z' {
            ((c as u32) + 32) as u8 as char
        } else {
            c
        };
        proof {
            if 'A' <= c <= 'Z' {
                assert(((c as u32) + 32) as u8 as char == ((c as u32) + 32) as char);
            }
        }
        out.push(lowered);
        i = i + 1;
    }
    assert(s@.subrange(0, s@.len() as int) =~= s@);
    out
}

/// `{data}/translated/{stem}.{from}-{to}.{ext}` from the input's stem and
/// extension: under the app's own data directory, so an export can read it.
/// A path without a stem is called `document`, one without an extension
/// gets `bin`; the extension is lower-cased.
pub open spec fn path_from_parts(
    data_dir: Seq<char>,
    stem: Option<Seq<char>>,
    extension: Option<Seq<char>>,
    from: Seq<char>,
    to: Seq<char>,
) -> Seq<char> {
    let stem = match stem {
        Some(s) => s,
        None => "document"@,
    };
    let ext = match extension {
        Some(e) => ascii_lower_text(e),
        None => "bin"@,
    };
    data_dir + "/translated/"@ + stem + "."@ + from + "-"@ + to + "."@ + ext
}

/// The output path of a document, from the stem and extension `Path`
/// finds in the input path.
pub open spec fn output_path(data_dir: Seq<char>, input_path: Seq<char>, from: Seq<char>, to: Seq<
    char,
>) -> Seq<char> {
    path_from_parts(data_dir, path_file_stem(input_path), path_extension(input_path), from, to)
}

pub fn output_path_from_parts(
    data_dir: &str,
    stem: Option<&str>,
    extension: Option<&str>,
    from: &str,
    to: &str,
) -> (r: String)
    ensures
        r@ == path_from_parts(
            data_dir@,
            match stem {
                Some(s) => Some(s@),
                None => None,
            },
            match extension {
                Some(e) => Some(e@),
                None => None,
            },
            from@,
            to@,
        ),
{
    let stem = match stem {
        Some(s) => str_chars(s),
        None => str_chars("document"),
    };
    let ext = match extension {
        Some(e) => to_ascii_lowercase(&str_chars(e)),
        None => str_chars("bin"),
    };
    let mut out = str_chars(data_dir);
    push_all(&mut out, str_chars("/translated/").as_slice());
    push_all(&mut out, stem.as_slice());
    push_all(&mut out, str_chars(".").as_slice());
    push_all(&mut out, str_chars(from).as_slice());
    push_all(&mut out, str_chars("-").as_slice());
    push_all(&mut out, str_chars(to).as_slice());
    push_all(&mut out, str_chars(".").as_slice());
    push_all(&mut out, ext.as_slice());
    string_from_chars(&out)
}

pub fn document_output_path(data_dir: &str, input_path: &str, from: &str, to: &str) -> (r: String)
    ensures
        r@ == output_path(data_dir@, input_path@, from@, to@),
{
    match file_name(input_path) {
        Some(name) => {
            let (stem, extension) = split_file_name(name.as_str());
            let extension_ref: Option<&str> = match &extension {
                Some(e) => Some(e.as_str()),
                None => None,
            };
            output_path_from_parts(data_dir, Some(stem.as_str()), extension_ref, from, to)
        },
        None => output_path_from_parts(data_dir, None, None, from, to),
    }
}

// ---------------------------------------------------------------------------
// Document jobs as the UI follows them: the picked file, the progress sheet
// and the final report.
// ---------------------------------------------------------------------------

/// How far a document job has got. The fraction of text translated is
/// carried beside `TranslatingText` by whoever relays it.
#[derive(Clone, Copy, Debug, PartialEq, Eq, Structural)]
pub enum DocumentProgress {
    Preparing,
    PdfPlan { image_xobjects: usize, raster_pages: usize },
    TranslatingText,
    TranslatingImages { current: usize, total: usize },
    TranslatingRasterPages { current: usize, total: usize },
    Writing,
}

/// Why a document job stopped early.
#[derive(Clone, Debug)]
pub enum DocumentFailure {
    Cancelled,
    Other(String),
}

/// What the translation job reports back to the UI thread.
#[derive(Clone, Debug)]
pub enum DocumentEvent {
    Progress(DocumentProgress),
    Done { output_path: String },
    Failed { message: String },
    Cancelled,
}

/// The report of a finished job: its output, or why there is none.
pub fn document_outcome(result: Result<(), DocumentFailure>, output_path: String) -> (r: DocumentEvent)
    ensures
        match result {
            Ok(()) => r == (DocumentEvent::Done { output_path }),
            Err(DocumentFailure::Cancelled) => r == DocumentEvent::Cancelled,
            Err(DocumentFailure::Other(message)) => r == (DocumentEvent::Failed { message }),
        },
{
    match result {
        Ok(()) => DocumentEvent::Done { output_path },
        Err(DocumentFailure::Cancelled) => DocumentEvent::Cancelled,
        Err(DocumentFailure::Other(message)) => DocumentEvent::Failed { message },
    }
}

/// A document job to run.
#[derive(Clone, Debug)]
pub struct DocumentRequest {
    pub input_path: String,
    pub from: String,
    pub to: String,
    pub translate_pdf_images: bool,
}

/// The document sheets of the UI.
#[derive(Clone, Debug)]
pub struct DocumentPanel {
    pub pending_path: String,
    pub file_name: String,
    pub file_size: String,
    pub is_pdf: bool,
    pub translate_images: bool,
    pub drawer_open: bool,
    pub progress_open: bool,
    pub progress_label: String,
    pub show_pdf_phases: bool,
    pub images_current: i32,
    pub images_total: i32,
    pub raster_current: i32,
    pub raster_total: i32,
    pub done_open: bool,
    pub output_name: String,
    pub output_url: String,
    pub error: String,
}

/// The label of the progress sheet while the file is read.
pub open spec fn preparing_label() -> Seq<char> {
    "Preparing file"@
}

/// The label while text or pages are translated.
pub open spec fn translating_label() -> Seq<char> {
    "Translating"@
}

/// The label while the output is written.
pub open spec fn writing_label() -> Seq<char> {
    "Writing file"@
}

/// The name a picked file is shown under.
pub open spec fn shown_file_name(path: Seq<char>) -> Seq<char> {
    match path_file_name(path) {
        Some(name) => name,
        None => "document"@,
    }
}

/// The name a finished output is shown under.
pub open spec fn shown_output_name(path: Seq<char>) -> Seq<char> {
    match path_file_name(path) {
        Some(name) => name,
        None => "translated"@,
    }
}

/// The sheet state after one progress report.
pub open spec fn progressed(p: DocumentPanel, q: DocumentPanel, progress: DocumentProgress) -> bool {
    match progress {
        DocumentProgress::Preparing => q == DocumentPanel { progress_label: q.progress_label, ..p }
            && q.progress_label@ == preparing_label(),
        DocumentProgress::PdfPlan { image_xobjects, raster_pages } => q == DocumentPanel {
            progress_label: q.progress_label,
            show_pdf_phases: true,
            images_total: image_xobjects as i32,
            raster_total: raster_pages as i32,
            ..p
        } && q.progress_label@ == translating_label(),
        DocumentProgress::TranslatingText => q == DocumentPanel {
            progress_label: q.progress_label,
            ..p
        } && q.progress_label@ == translating_label(),
        DocumentProgress::TranslatingImages { current, total } => q == DocumentPanel {
            images_current: current as i32,
            images_total: total as i32,
            ..p
        },
        DocumentProgress::TranslatingRasterPages { current, total } => q == DocumentPanel {
            raster_current: current as i32,
            raster_total: total as i32,
            ..p
        },
        DocumentProgress::Writing => q == DocumentPanel { progress_label: q.progress_label, ..p }
            && q.progress_label@ == writing_label(),
    }
}

fn text(s: &str) -> (r: String)
    ensures
        r@ == s@,
{
    string_from_chars(&str_chars(s))
}

impl Default for DocumentPanel {
    fn default() -> (r: Self)
        ensures
            r.pending_path@.len() == 0,
            r.translate_images,
            !r.drawer_open && !r.progress_open && !r.done_open && !r.is_pdf,
    {
        DocumentPanel::new()
    }
}

impl DocumentPanel {
    /// Nothing picked, nothing running; embedded images are translated by
    /// default.
    pub fn new() -> (r: Self)
        ensures
            r.pending_path@.len() == 0,
            r.translate_images,
            !r.drawer_open && !r.progress_open && !r.done_open && !r.is_pdf,
    {
        DocumentPanel {
            pending_path: String::new(),
            file_name: String::new(),
            file_size: String::new(),
            is_pdf: false,
            translate_images: true,
            drawer_open: false,
            progress_open: false,
            progress_label: String::new(),
            show_pdf_phases: false,
            images_current: 0,
            images_total: 0,
            raster_current: 0,
            raster_total: 0,
            done_open: false,
            output_name: String::new(),
            output_url: String::new(),
            error: String::new(),
        }
    }

    /// A picked file of a supported document type, with its extension and
    /// size: it becomes the pending document and the translate drawer opens.
    pub fn pick(&mut self, path: String, extension: &str, size_bytes: u64)
        ensures
            final(self).pending_path == path,
            final(self).file_name@ == shown_file_name(path@),
            final(self).file_size@ == size_text(size_bytes as nat),
            final(self).is_pdf == (extension@ == "pdf"@),
            final(self).drawer_open,
            *final(self) == (DocumentPanel {
                pending_path: final(self).pending_path,
                file_name: final(self).file_name,
                file_size: final(self).file_size,
                is_pdf: final(self).is_pdf,
                drawer_open: true,
                ..*old(self)
            }),
    {
        let name = match file_name(path.as_str()) {
            Some(name) => name,
            None => text("document"),
        };
        self.file_name = name;
        self.file_size = format_size(size_bytes);
        let pdf = str_chars("pdf");
        self.is_pdf = crate::text::chars_eq(str_chars(extension).as_slice(), pdf.as_slice());
        self.pending_path = path;
        self.drawer_open = true;
    }

    /// Starts the pending document: the drawer closes and an empty progress
    /// sheet opens. Without a pending document nothing happens.
    pub fn start(&mut self, from: String, to: String) -> (r: Option<DocumentRequest>)
        ensures
            old(self).pending_path@.len() == 0 ==> r is None && *final(self) == *old(self),
            old(self).pending_path@.len() != 0 ==> {
                &&& r matches Some(request)
                &&& request.input_path == old(self).pending_path
                &&& request.from == from && request.to == to
                &&& request.translate_pdf_images == (old(self).is_pdf && old(self).translate_images)
                &&& *final(self) == (DocumentPanel {
                    drawer_open: false,
                    progress_open: true,
                    progress_label: final(self).progress_label,
                    show_pdf_phases: false,
                    images_current: 0,
                    images_total: 0,
                    raster_current: 0,
                    raster_total: 0,
                    ..*old(self)
                })
                &&& final(self).progress_label@ == preparing_label()
            },
    {
        if self.pending_path.as_str().is_empty() {
            return None;
        }
        self.drawer_open = false;
        self.progress_label = text("Preparing file");
        self.show_pdf_phases = false;
        self.images_current = 0;
        self.images_total = 0;
        self.raster_current = 0;
        self.raster_total = 0;
        self.progress_open = true;
        Some(
            DocumentRequest {
                input_path: self.pending_path.clone(),
                from,
                to,
                translate_pdf_images: self.is_pdf && self.translate_images,
            },
        )
    }

    /// The user cancelled: the progress sheet closes.
    pub fn cancel(&mut self)
        ensures
            *final(self) == (DocumentPanel { progress_open: false, ..*old(self) }),
    {
        self.progress_open = false;
    }

    pub fn apply_progress(&mut self, progress: DocumentProgress)
        ensures
            progressed(*old(self), *final(self), progress),
    {
        match progress {
            DocumentProgress::Preparing => {
                self.progress_label = text("Preparing file");
            },
            DocumentProgress::PdfPlan { image_xobjects, raster_pages } => {
                self.progress_label = text("Translating");
                self.show_pdf_phases = true;
                self.images_total = image_xobjects as i32;
                self.raster_total = raster_pages as i32;
            },
            DocumentProgress::TranslatingText => {
                self.progress_label = text("Translating");
            },
            DocumentProgress::TranslatingImages { current, total } => {
                self.images_current = current as i32;
                self.images_total = total as i32;
            },
            DocumentProgress::TranslatingRasterPages { current, total } => {
                self.raster_current = current as i32;
                self.raster_total = total as i32;
            },
            DocumentProgress::Writing => {
                self.progress_label = text("Writing file");
            },
        }
    }

    /// A report from the job: progress updates the sheet; the end of the
    /// job closes it, and a result or a failure opens the final report.
    pub fn apply_event(&mut self, event: DocumentEvent)
        ensures
            match event {
                DocumentEvent::Progress(progress) => progressed(*old(self), *final(self), progress),
                DocumentEvent::Done { output_path } => {
                    &&& *final(self) == (DocumentPanel {
                        progress_open: false,
                        output_name: final(self).output_name,
                        output_url: final(self).output_url,
                        error: final(self).error,
                        done_open: true,
                        ..*old(self)
                    })
                    &&& final(self).output_name@ == shown_output_name(output_path@)
                    &&& final(self).output_url@ == "file://"@ + output_path@
                    &&& final(self).error@.len() == 0
                },
                DocumentEvent::Failed { message } => *final(self) == (DocumentPanel {
                    progress_open: false,
                    error: message,
                    done_open: true,
                    ..*old(self)
                }),
                DocumentEvent::Cancelled => *final(self) == (DocumentPanel {
                    progress_open: false,
                    ..*old(self)
                }),
            },
    {
        match event {
            DocumentEvent::Progress(progress) => self.apply_progress(progress),
            DocumentEvent::Done { output_path } => {
                self.progress_open = false;
                let name = match file_name(output_path.as_str()) {
                    Some(name) => name,
                    None => text("translated"),
                };
                self.output_name = name;
                let mut url = str_chars("file://");
                push_all(&mut url, str_chars(output_path.as_str()).as_slice());
                self.output_url = string_from_chars(&url);
                self.error = String::new();
                self.done_open = true;
            },
            DocumentEvent::Failed { message } => {
                self.progress_open = false;
                self.error = message;
                self.done_open = true;
            },
            DocumentEvent::Cancelled => {
                self.progress_open = false;
            },
        }
    }
}

} // verus!
