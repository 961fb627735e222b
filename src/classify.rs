//! The incremental classifier: reads a body in chunks of fixed size and,
//! after each chunk, looks for a title or a fallback description, stopping
//! at the first one found or at a hard ceiling of chunks.
use vstd::prelude::*;
use vstd::string::StringExecFns;
use crate::outside::{decode_lossy, human_size, human_size_of, lossy_text, parse_mime, parsed_mime};

verus! {

/// Bytes read from the body in one step.
pub const CHUNK_BYTES: u64 = 102400;

/// Steps read at most from one body.
pub const CHUNKS_MAX: u64 = 10;

/// Which features may give a description when a page has no title.
#[derive(Clone, Copy, Debug, PartialEq, Eq)]
pub struct Features {
    /// Describe images by their dimensions.
    pub report_metadata: bool,
    /// Describe other content by its type and size.
    pub report_mime: bool,
}

/// What the declared content type says of the body, for dispatch.
#[derive(Clone, Copy, Debug, PartialEq, Eq)]
pub enum ContentKind {
    /// No content type was declared, or it did not parse.
    Undeclared,
    Html,
    Image,
    Other,
}

/// A source of a description, in the order in which they are tried.
#[derive(Clone, Copy, Debug, PartialEq, Eq, Structural)]
pub enum Extractor {
    /// The title found in the decoded text.
    Title,
    /// The dimensions read from the raw bytes of an image.
    ImageMeta,
    /// The declared type and the human-readable size.
    MimeSummary,
}

/// What to do after a chunk was looked at.
#[derive(Debug, PartialEq, Eq)]
pub enum Decision {
    /// This is the description; read no more.
    Found(String),
    /// Read another chunk.
    ReadMore,
    /// Nothing was found and nothing more will be read.
    GiveUp,
}

/// The kind of a parsed content type: its type and subtype.
pub open spec fn kind_of(parsed: Option<(Seq<char>, Seq<char>, Seq<char>)>) -> ContentKind {
    match parsed {
        None => ContentKind::Undeclared,
        Some(m) => if m.1 == "text"@ && m.2 == "html"@ {
            ContentKind::Html
        } else if m.1 == "image"@ {
            ContentKind::Image
        } else {
            ContentKind::Other
        },
    }
}

/// The sources tried, in order, for a kind of content.
pub open spec fn plan_of(kind: ContentKind, f: Features) -> Seq<Extractor> {
    match kind {
        ContentKind::Undeclared | ContentKind::Html => seq![Extractor::Title],
        ContentKind::Image => {
            let with_meta = if f.report_metadata {
                seq![Extractor::Title, Extractor::ImageMeta]
            } else {
                seq![Extractor::Title]
            };
            if f.report_mime {
                with_meta.push(Extractor::MimeSummary)
            } else {
                with_meta
            }
        },
        ContentKind::Other => if f.report_mime {
            seq![Extractor::Title, Extractor::MimeSummary]
        } else {
            seq![Extractor::Title]
        },
    }
}

/// A result that counts as a description: present and not empty.
pub open spec fn found(r: Option<Seq<char>>) -> bool {
    r matches Some(s) && s.len() > 0
}

/// The first description that the sources of `plan` give, each source's
/// answer taken from `title`, `image` and `summary`.
pub open spec fn first_found(
    plan: Seq<Extractor>,
    title: Option<Seq<char>>,
    image: Option<Seq<char>>,
    summary: Seq<char>,
) -> Option<Seq<char>>
    decreases plan.len(),
{
    if plan.len() == 0 {
        None
    } else {
        let here = match plan[0] {
            Extractor::Title => title,
            Extractor::ImageMeta => image,
            Extractor::MimeSummary => Some(summary),
        };
        if found(here) {
            here
        } else {
            first_found(plan.drop_first(), title, image, summary)
        }
    }
}

/// The content type as the parser keeps it, empty when there is none.
pub open spec fn mime_text(parsed: Option<(Seq<char>, Seq<char>, Seq<char>)>) -> Seq<char> {
    match parsed {
        Some(m) => m.0,
        None => Seq::empty(),
    }
}

pub open spec fn opt_view(o: Option<String>) -> Option<Seq<char>> {
    match o {
        Some(s) => Some(s@),
        None => None,
    }
}

/// The chunked reader and classifier of one response body.
pub struct Classifier {
    pub kind: ContentKind,
    /// The declared content type as the parser keeps it; empty when none.
    pub mime: String,
    /// The declared length, human-readable.
    pub size: String,
    pub features: Features,
    /// Every byte read so far, in order.
    pub body: Vec<u8>,
    /// Chunks read so far.
    pub chunks: u64,
    /// The last chunk came short: the body has ended.
    pub ended: bool,
    /// A decision other than reading more was taken.
    pub finished: bool,
}

impl Classifier {
    /// At most one chunk's worth of bytes per chunk read, and at most
    /// `CHUNKS_MAX` chunks.
    pub open spec fn wf(&self) -> bool {
        &&& self.chunks <= CHUNKS_MAX
        &&& self.body@.len() <= self.chunks * CHUNK_BYTES
    }

    /// How many bytes may be read next, `None` when reading is over.
    pub open spec fn allowance(&self) -> Option<u64> {
        if self.finished || self.ended || self.chunks >= CHUNKS_MAX {
            None
        } else {
            Some(CHUNK_BYTES)
        }
    }

    /// The summary of the declared type and size.
    pub open spec fn summary(&self) -> Seq<char> {
        self.mime@ + " "@ + self.size@
    }

    /// The description that this chunk gives, if any.
    pub open spec fn pick(&self, title: Option<Seq<char>>, image: Option<Seq<char>>) -> Option<Seq<char>> {
        first_found(plan_of(self.kind, self.features), title, image, self.summary())
    }

    /// A classifier for a response with this `Content-Type` value and
    /// declared length; nothing read yet.
    pub fn new(content_type: Option<&str>, content_length: Option<u64>, features: Features) -> (r: Classifier)
        ensures
            r.wf(),
            r.kind == kind_of(match content_type {
                Some(ct) => parsed_mime(ct@),
                None => None,
            }),
            r.mime@ == mime_text(match content_type {
                Some(ct) => parsed_mime(ct@),
                None => None,
            }),
            r.size@ == human_size_of(match content_length {
                Some(n) => n,
                None => 0,
            }),
            r.features == features,
            r.body@.len() == 0,
            r.chunks == 0,
            !r.ended,
            !r.finished,
    {
        let parsed = match content_type {
            Some(ct) => parse_mime(ct),
            None => None,
        };
        let (kind, mime) = match parsed {
            None => (ContentKind::Undeclared, String::new()),
            Some(m) => {
                let kind = if m.1 == String::from_str("text") && m.2 == String::from_str("html") {
                    ContentKind::Html
                } else if m.1 == String::from_str("image") {
                    ContentKind::Image
                } else {
                    ContentKind::Other
                };
                (kind, m.0)
            },
        };
        let len = match content_length {
            Some(n) => n,
            None => 0,
        };
        Classifier {
            kind,
            mime,
            size: human_size(len),
            features,
            body: Vec::new(),
            chunks: 0,
            ended: false,
            finished: false,
        }
    }

    /// The sources tried after each chunk, in order.
    pub fn plan(&self) -> (r: Vec<Extractor>)
        ensures
            r@ == plan_of(self.kind, self.features),
    {
        let mut r: Vec<Extractor> = Vec::new();
        r.push(Extractor::Title);
        match self.kind {
            ContentKind::Undeclared | ContentKind::Html => {},
            ContentKind::Image => {
                if self.features.report_metadata {
                    r.push(Extractor::ImageMeta);
                }
                if self.features.report_mime {
                    r.push(Extractor::MimeSummary);
                }
            },
            ContentKind::Other => {
                if self.features.report_mime {
                    r.push(Extractor::MimeSummary);
                }
            },
        }
        proof {
            assert(r@ =~= plan_of(self.kind, self.features));
        }
        r
    }

    /// How many bytes to read next; `None` once reading is over.
    pub fn next_read(&self) -> (r: Option<u64>)
        ensures
            r == self.allowance(),
    {
        if self.finished || self.ended || self.chunks >= CHUNKS_MAX {
            None
        } else {
            Some(CHUNK_BYTES)
        }
    }

    /// Appends one chunk read from the body; a short chunk marks its end.
    pub fn push_chunk(&mut self, chunk: &[u8])
        requires
            old(self).wf(),
            old(self).allowance() is Some,
            chunk@.len() <= CHUNK_BYTES,
        ensures
            final(self).wf(),
            final(self).body@ == old(self).body@ + chunk@,
            final(self).chunks == old(self).chunks + 1,
            final(self).ended == (chunk@.len() < CHUNK_BYTES),
            final(self).finished == old(self).finished,
            final(self).kind == old(self).kind,
            final(self).mime == old(self).mime,
            final(self).size == old(self).size,
            final(self).features == old(self).features,
    {
        let mut i: usize = 0;
        let ghost start = self.body@;
        while i < chunk.len()
            invariant
                i <= chunk@.len(),
                self.body@ == start + chunk@.take(i as int),
                self.kind == old(self).kind,
                self.mime == old(self).mime,
                self.size == old(self).size,
                self.features == old(self).features,
                self.chunks == old(self).chunks,
                self.ended == old(self).ended,
                self.finished == old(self).finished,
            decreases chunk@.len() - i,
        {
            self.body.push(chunk[i]);
            proof {
                assert(chunk@.take(i + 1) =~= chunk@.take(i as int).push(chunk@[i as int]));
            }
            i = i + 1;
        }
        assert(chunk@.take(i as int) =~= chunk@);
        self.chunks = self.chunks + 1;
        self.ended = (chunk.len() as u64) < CHUNK_BYTES;
    }

    /// The body read so far, decoded as UTF-8 with replacement characters.
    pub fn text(&self) -> (r: String)
        ensures
            r@ == lossy_text(self.body@),
    {
        decode_lossy(self.body.as_slice())
    }

    /// The summary of the declared type and size: `"<type> <size>"`.
    pub fn mime_summary(&self) -> (r: String)
        ensures
            r@ == self.summary(),
    {
        let mut r = self.mime.clone();
        r.append(" ");
        r.append(self.size.as_str());
        r
    }

    /// Whether the image source must be asked about the body read so far:
    /// the plan has it and the title source gave no description.
    pub fn wants_image(&self, title: &Option<String>) -> (r: bool)
        ensures
            r == (plan_of(self.kind, self.features).contains(Extractor::ImageMeta) && !found(opt_view(*title))),
    {
        let plan = self.plan();
        let titled = match title {
            Some(t) => !t.as_str().is_empty(),
            None => false,
        };
        let mut has = false;
        let mut i: usize = 0;
        while i < plan.len()
            invariant
                i <= plan@.len(),
                plan@ == plan_of(self.kind, self.features),
                has == plan@.take(i as int).contains(Extractor::ImageMeta),
            decreases plan@.len() - i,
        {
            proof {
                let t0 = plan@.take(i as int);
                let t1 = plan@.take(i + 1);
                assert(t1 =~= t0.push(plan@[i as int]));
                if t1.contains(Extractor::ImageMeta) {
                    let k = choose|k: int| 0 <= k < t1.len() && #[trigger] t1[k] == Extractor::ImageMeta;
                    if k < i {
                        assert(t0[k] == Extractor::ImageMeta);
                    }
                }
                if t0.contains(Extractor::ImageMeta) {
                    let k = choose|k: int| 0 <= k < t0.len() && #[trigger] t0[k] == Extractor::ImageMeta;
                    assert(t1[k] == Extractor::ImageMeta);
                }
                if plan@[i as int] == Extractor::ImageMeta {
                    assert(t1[i as int] == Extractor::ImageMeta);
                }
            }
            if plan[i] == Extractor::ImageMeta {
                has = true;
            }
            i = i + 1;
        }
        assert(plan@.take(i as int) =~= plan@);
        has && !titled
    }

    /// Decides after a chunk, given what the title and image sources gave
    /// for the body read so far: the first description that the plan gives,
    /// else another chunk while the ceiling and the body allow, else give up.
    pub fn decide(&mut self, title: Option<String>, image: Option<String>) -> (r: Decision)
        requires
            old(self).wf(),
            !old(self).finished,
        ensures
            final(self).wf(),
            final(self).body == old(self).body,
            final(self).chunks == old(self).chunks,
            final(self).ended == old(self).ended,
            final(self).kind == old(self).kind,
            final(self).features == old(self).features,
            match old(self).pick(opt_view(title), opt_view(image)) {
                Some(s) => r matches Decision::Found(t) && t@ == s && final(self).finished,
                None => if old(self).ended || old(self).chunks >= CHUNKS_MAX {
                    r == Decision::GiveUp && final(self).finished
                } else {
                    r == Decision::ReadMore && !final(self).finished
                },
            },
    {
        let plan = self.plan();
        let mut i: usize = 0;
        assert(plan@.skip(0) =~= plan@);
        while i < plan.len()
            invariant
                i <= plan@.len(),
                plan@ == plan_of(self.kind, self.features),
                first_found(plan@.skip(i as int), opt_view(title), opt_view(image), self.summary())
                    == self.pick(opt_view(title), opt_view(image)),
                self.wf(),
                !self.finished,
                *self == *old(self),
            decreases plan@.len() - i,
        {
            proof {
                assert(plan@.skip(i as int).drop_first() =~= plan@.skip(i + 1));
                assert(plan@.skip(i as int)[0] == plan@[i as int]);
            }
            let here: Option<String> = match plan[i] {
                Extractor::Title => title.clone(),
                Extractor::ImageMeta => image.clone(),
                Extractor::MimeSummary => Some(self.mime_summary()),
            };
            match here {
                Some(s) => {
                    if !s.as_str().is_empty() {
                        self.finished = true;
                        return Decision::Found(s);
                    }
                },
                None => {},
            }
            i = i + 1;
        }
        if self.ended || self.chunks >= CHUNKS_MAX {
            self.finished = true;
            Decision::GiveUp
        } else {
            Decision::ReadMore
        }
    }
}

/// A classifier never holds more than `CHUNKS_MAX` chunks' worth of body,
/// and allows no read once it has taken `CHUNKS_MAX` chunks.
pub proof fn lemma_read_ceiling(c: Classifier)
    requires
        c.wf(),
    ensures
        c.body@.len() <= CHUNKS_MAX * CHUNK_BYTES,
        c.chunks >= CHUNKS_MAX ==> c.allowance() is None,
{
    assert(c.chunks * CHUNK_BYTES <= CHUNKS_MAX * CHUNK_BYTES) by (nonlinear_arith)
        requires
            c.chunks <= CHUNKS_MAX,
    ;
}

/// A title found is the description whatever the content type and the
/// features, and once the classifier has decided no further read is allowed:
/// a title in the first chunk costs exactly one chunk.
pub proof fn lemma_title_stops_reading(c: Classifier, title: Option<Seq<char>>, image: Option<Seq<char>>)
    requires
        found(title),
    ensures
        c.pick(title, image) == title,
        c.finished ==> c.allowance() is None,
{
    let plan = plan_of(c.kind, c.features);
    assert(plan[0] == Extractor::Title);
}

/// With no declared content type only the title source is tried: the
/// description is the title if there is one, and nothing else.
pub proof fn lemma_undeclared_title_only(c: Classifier, title: Option<Seq<char>>, image: Option<Seq<char>>)
    requires
        c.kind == ContentKind::Undeclared,
    ensures
        plan_of(c.kind, c.features) == seq![Extractor::Title],
        c.pick(title, image) == (if found(title) { title } else { None }),
{
    let plan = plan_of(c.kind, c.features);
    assert(plan[0] == Extractor::Title);
    assert(plan.drop_first().len() == 0);
    assert(first_found(plan.drop_first(), title, image, c.summary()) == None::<Seq<char>>);
}

/// With metadata and type reporting off, only the title source is tried for
/// every kind of content: a body without a title gives no description.
pub proof fn lemma_no_fallback(c: Classifier, title: Option<Seq<char>>, image: Option<Seq<char>>)
    requires
        !c.features.report_metadata,
        !c.features.report_mime,
    ensures
        plan_of(c.kind, c.features) == seq![Extractor::Title],
        c.pick(title, image) == (if found(title) { title } else { None }),
{
    let plan = plan_of(c.kind, c.features);
    assert(plan =~= seq![Extractor::Title]);
    assert(plan[0] == Extractor::Title);
    assert(plan.drop_first().len() == 0);
    assert(first_found(plan.drop_first(), title, image, c.summary()) == None::<Seq<char>>);
}

} // verus!
