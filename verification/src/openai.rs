//! The OpenAI-shaped wire types: multi-part message content and its text
//! rendering, response and stream-chunk envelopes, and a reader for SSE
//! streams of chat-completion chunks.

use vstd::prelude::*;

verus! {

use vstd::string::StrSliceExecFns;
use vstd::string::StringExecFns;
use crate::jsonval::{
    json_array_items, json_object_entries, json_shape, parsed_json, spec_field_get, val_of,
    JsonShape, JsonV,
};
use crate::parse::{
    field_lookup, spec_str_or_empty, spec_str_or_none, spec_u64_or_zero, str_field,
};
use crate::strkit::{eq_substr_at, str_eq};
use crate::tools::{spec_split_all, split_all};

/// The kind of one content part.
#[derive(Debug, Clone, Copy, PartialEq, Eq, Structural)]
pub enum MultiPartContentType {
    Text,
    ImageUrl,
}

/// One part of a multi-part message content.
#[derive(Debug)]
pub struct MultiPartContent {
    pub text: Option<String>,
    pub content_type: MultiPartContentType,
}

#[verifier::ext_equal]
pub ghost struct MultiPartContentV {
    pub text: Option<Seq<char>>,
    pub content_type: MultiPartContentType,
}

impl View for MultiPartContent {
    type V = MultiPartContentV;

    open spec fn view(&self) -> MultiPartContentV {
        MultiPartContentV {
            text: match self.text {
                Some(t) => Some(t@),
                None => None,
            },
            content_type: self.content_type,
        }
    }
}

/// A message's content: plain text, or an ordered list of parts.
#[derive(Debug)]
pub enum ContentType {
    Text(String),
    MultiPart(Vec<MultiPartContent>),
}

#[verifier::ext_equal]
pub ghost enum ContentTypeV {
    Text(Seq<char>),
    MultiPart(Seq<MultiPartContentV>),
}

impl View for ContentType {
    type V = ContentTypeV;

    open spec fn view(&self) -> ContentTypeV {
        match self {
            ContentType::Text(t) => ContentTypeV::Text(t@),
            ContentType::MultiPart(parts) => ContentTypeV::MultiPart(
                parts@.map_values(|p: MultiPartContent| p@),
            ),
        }
    }
}

/// The text of a part list: the `text` fields of its text-typed parts,
/// joined with newlines; image parts contribute nothing.
pub open spec fn spec_parts_text(parts: Seq<MultiPartContent>, first: bool) -> Seq<char>
    decreases parts.len(),
{
    if parts.len() == 0 {
        Seq::empty()
    } else {
        let keep = parts[0].content_type == MultiPartContentType::Text && parts[0].text is Some;
        if keep {
            let lead: Seq<char> = if first {
                Seq::empty()
            } else {
                seq!['\n']
            };
            lead + parts[0].text.unwrap()@ + spec_parts_text(parts.drop_first(), false)
        } else {
            spec_parts_text(parts.drop_first(), first)
        }
    }
}

/// The text rendering of a content value.
pub open spec fn spec_content_text(c: &ContentType) -> Seq<char> {
    match c {
        ContentType::Text(t) => t@,
        ContentType::MultiPart(parts) => spec_parts_text(parts@, true),
    }
}

impl ContentType {
    /// Render this content as plain text: a text value stays itself; a
    /// multi-part list concatenates its text parts with newlines, skipping
    /// image parts.
    pub fn to_text(&self) -> (r: String)
        ensures
            r@ == spec_content_text(self),
    {
        match self {
            ContentType::Text(t) => t.clone(),
            ContentType::MultiPart(parts) => {
                let mut out = String::new();
                let mut first = true;
                let mut i: usize = 0;
                let ghost pv = parts@;
                proof {
                    assert(pv.skip(0) =~= pv);
                }
                while i < parts.len()
                    invariant
                        i <= parts@.len(),
                        pv == parts@,
                        out@ + spec_parts_text(pv.skip(i as int), first) == spec_parts_text(
                            pv,
                            true,
                        ),
                    decreases parts@.len() - i,
                {
                    let ghost tail = pv.skip(i as int);
                    proof {
                        assert(tail[0] == pv[i as int]);
                        assert(tail.drop_first() =~= pv.skip(i + 1));
                    }
                    let p = &parts[i];
                    let is_text = match p.content_type {
                        MultiPartContentType::Text => true,
                        MultiPartContentType::ImageUrl => false,
                    };
                    if is_text {
                        match &p.text {
                            Some(t) => {
                                let ghost out_before = out@;
                                if !first {
                                    out.append("\n");
                                    proof {
                                        reveal_strlit("\n");
                                    }
                                }
                                out.append(t.as_str());
                                proof {
                                    let lead: Seq<char> = if first {
                                        Seq::empty()
                                    } else {
                                        seq!['\n']
                                    };
                                    assert(out@ =~= out_before + lead + tail[0].text.unwrap()@);
                                }
                                first = false;
                            },
                            None => {},
                        }
                    }
                    i = i + 1;
                }
                proof {
                    assert(pv.skip(parts@.len() as int) =~= Seq::<MultiPartContent>::empty());
                }
                out
            },
        }
    }
}

/// One chat message of the OpenAI wire shape.
#[derive(Debug)]
pub struct Message {
    pub role: String,
    pub content: Option<ContentType>,
}

#[verifier::ext_equal]
pub ghost struct WireMessageV {
    pub role: Seq<char>,
    pub content: Option<ContentTypeV>,
}

impl View for Message {
    type V = WireMessageV;

    open spec fn view(&self) -> WireMessageV {
        WireMessageV {
            role: self.role@,
            content: match self.content {
                Some(c) => Some(c@),
                None => None,
            },
        }
    }
}

/// Client control of usage reporting on streamed responses.
#[derive(Debug, Clone, Copy, PartialEq, Eq, Structural)]
pub struct StreamOptions {
    pub include_usage: bool,
}

/// Token accounting of a response.
#[derive(Debug, Clone, Copy, PartialEq, Eq, Structural)]
pub struct Usage {
    pub prompt_tokens: usize,
    pub completion_tokens: usize,
    pub total_tokens: usize,
}

/// One choice of a buffered response.
#[derive(Debug)]
pub struct Choice {
    pub index: u32,
    pub message: Message,
    pub finish_reason: Option<String>,
}

/// A buffered chat-completions response.
#[derive(Debug)]
pub struct ChatCompletionsResponse {
    pub id: String,
    pub object: String,
    pub created: u64,
    pub choices: Vec<Choice>,
    pub usage: Option<Usage>,
}

/// One choice of a stream chunk.
#[derive(Debug)]
pub struct StreamChoice {
    pub index: u32,
    pub delta: Message,
    pub finish_reason: Option<String>,
}

#[verifier::ext_equal]
pub ghost struct StreamChoiceV {
    pub index: u32,
    pub delta: WireMessageV,
    pub finish_reason: Option<Seq<char>>,
}

impl View for StreamChoice {
    type V = StreamChoiceV;

    open spec fn view(&self) -> StreamChoiceV {
        StreamChoiceV {
            index: self.index,
            delta: self.delta@,
            finish_reason: match self.finish_reason {
                Some(f) => Some(f@),
                None => None,
            },
        }
    }
}

/// One chunk of a streamed chat completion.
#[derive(Debug)]
pub struct ChatCompletionStreamResponse {
    pub id: String,
    pub object: String,
    pub created: u64,
    pub model: String,
    pub choices: Vec<StreamChoice>,
    pub usage: Option<Usage>,
}

#[verifier::ext_equal]
pub ghost struct ChatCompletionStreamResponseV {
    pub id: Seq<char>,
    pub object: Seq<char>,
    pub created: u64,
    pub model: Seq<char>,
    pub choices: Seq<StreamChoiceV>,
    pub usage: Option<Usage>,
}

impl View for ChatCompletionStreamResponse {
    type V = ChatCompletionStreamResponseV;

    open spec fn view(&self) -> ChatCompletionStreamResponseV {
        ChatCompletionStreamResponseV {
            id: self.id@,
            object: self.object@,
            created: self.created,
            model: self.model@,
            choices: self.choices@.map_values(|c: StreamChoice| c@),
            usage: self.usage,
        }
    }
}

/// One model of a model listing.
#[derive(Debug)]
pub struct ModelDetail {
    pub id: String,
    pub object: String,
    pub created: usize,
    pub owned_by: String,
}

/// The tag of a model listing.
#[derive(Debug, Clone, Copy, PartialEq, Eq, Structural)]
pub enum ModelObject {
    List,
}

/// A model listing.
#[derive(Debug)]
pub struct Models {
    pub object: ModelObject,
    pub data: Vec<ModelDetail>,
}

/// Whether a character is blank space an SSE payload may carry around it.
pub open spec fn is_blank(c: char) -> bool {
    c == ' ' || c == '\t' || c == '\r' || c == '\n'
}

pub open spec fn spec_trim_start(s: Seq<char>) -> Seq<char>
    decreases s.len(),
{
    if s.len() > 0 && is_blank(s[0]) {
        spec_trim_start(s.drop_first())
    } else {
        s
    }
}

pub open spec fn spec_trim_end(s: Seq<char>) -> Seq<char>
    decreases s.len(),
{
    if s.len() > 0 && is_blank(s.last()) {
        spec_trim_end(s.drop_last())
    } else {
        s
    }
}

/// `s` without leading and trailing blank space.
pub open spec fn spec_trim(s: Seq<char>) -> Seq<char> {
    spec_trim_end(spec_trim_start(s))
}

/// Strip leading and trailing blank space.
pub fn trim_blank(s: &str) -> (r: String)
    ensures
        r@ == spec_trim(s@),
{
    let n = s.unicode_len();
    let mut i: usize = 0;
    proof {
        assert(s@.skip(0) =~= s@);
    }
    while i < n && is_blank_char(s.get_char(i))
        invariant
            i <= n,
            n == s@.len(),
            spec_trim_start(s@) == spec_trim_start(s@.skip(i as int)),
        decreases n - i,
    {
        proof {
            assert(s@.skip(i as int)[0] == s@[i as int]);
            assert(s@.skip(i as int).drop_first() =~= s@.skip(i + 1));
        }
        i = i + 1;
    }
    proof {
        if i < n {
            assert(s@.skip(i as int)[0] == s@[i as int]);
        }
        assert(spec_trim_start(s@) =~= s@.skip(i as int));
    }
    let mut j: usize = n;
    proof {
        assert(s@.skip(i as int).take(n - i as int) =~= s@.skip(i as int));
    }
    while j > i && is_blank_char(s.get_char(j - 1))
        invariant
            i <= j <= n,
            n == s@.len(),
            spec_trim_start(s@) == s@.skip(i as int),
            spec_trim_end(s@.skip(i as int)) == spec_trim_end(
                s@.skip(i as int).take(j - i as int),
            ),
        decreases j,
    {
        proof {
            let cur = s@.skip(i as int).take(j - i as int);
            assert(cur.last() == s@[j - 1]);
            assert(cur.drop_last() =~= s@.skip(i as int).take(j - 1 - i as int));
        }
        j = j - 1;
    }
    let piece = s.substring_char(i, j);
    proof {
        let cur = s@.skip(i as int).take(j - i as int);
        if j > i {
            assert(cur.last() == s@[j - 1]);
        }
        assert(spec_trim_end(cur) =~= cur);
        assert(piece@ =~= cur);
    }
    piece.to_owned()
}

fn is_blank_char(c: char) -> (r: bool)
    ensures
        r == is_blank(c),
{
    c == ' ' || c == '\t' || c == '\r' || c == '\n'
}

/// The lines of a text, as `str::lines` cuts them: split at every newline,
/// a trailing carriage return stripped from each piece, and no empty piece
/// after a final newline.
pub open spec fn spec_lines(s: Seq<char>) -> Seq<Seq<char>> {
    let pieces = spec_split_all(s, '\n').map_values(
        |p: Seq<char>|
            if p.len() > 0 && p.last() == '\r' {
                p.drop_last()
            } else {
                p
            },
    );
    if s.len() > 0 && pieces.len() > 0 && pieces.last().len() == 0 {
        pieces.drop_last()
    } else if s.len() == 0 {
        Seq::empty()
    } else {
        pieces
    }
}

/// Split a text into its lines.
pub fn split_lines(s: &str) -> (r: Vec<String>)
    ensures
        r@.map_values(|p: String| p@) == spec_lines(s@),
{
    if s.is_empty() {
        let out: Vec<String> = Vec::new();
        proof {
            assert(out@.map_values(|p: String| p@) =~= spec_lines(s@));
        }
        return out;
    }
    let raw = split_all(s, '\n');
    let mut out: Vec<String> = Vec::new();
    let ghost raw_v = raw@.map_values(|p: String| p@);
    let ghost stripped = raw_v.map_values(
        |p: Seq<char>|
            if p.len() > 0 && p.last() == '\r' {
                p.drop_last()
            } else {
                p
            },
    );
    let mut i: usize = 0;
    while i < raw.len()
        invariant
            i <= raw@.len(),
            raw_v == raw@.map_values(|p: String| p@),
            stripped == raw_v.map_values(
                |p: Seq<char>|
                    if p.len() > 0 && p.last() == '\r' {
                        p.drop_last()
                    } else {
                        p
                    },
            ),
            out@.map_values(|p: String| p@) =~= stripped.take(i as int),
        decreases raw@.len() - i,
    {
        let line = &raw[i];
        let n = line.as_str().unicode_len();
        let ghost out_before = out@;
        if n > 0 && line.as_str().get_char(n - 1) == '\r' {
            let head = line.as_str().substring_char(0, n - 1);
            proof {
                assert(head@ =~= raw_v[i as int].drop_last());
            }
            out.push(head.to_owned());
        } else {
            out.push(line.clone());
        }
        proof {
            assert(out@.map_values(|p: String| p@) =~= out_before.map_values(|p: String| p@).push(
                stripped[i as int],
            ));
            assert(stripped.take(i + 1) =~= stripped.take(i as int).push(stripped[i as int]));
        }
        i = i + 1;
    }
    proof {
        assert(stripped.take(raw@.len() as int) =~= stripped);
    }
    if out.len() > 0 {
        let last_empty = out[out.len() - 1].as_str().is_empty();
        if last_empty {
            let popped = out.pop();
            proof {
                assert(out@.map_values(|p: String| p@) =~= stripped.drop_last());
            }
        }
    }
    proof {
        assert(out@.map_values(|p: String| p@) =~= spec_lines(s@));
    }
    out
}

/// A line that carries an SSE payload.
pub open spec fn spec_is_data_line(l: Seq<char>) -> bool {
    l.len() >= 6 && l.subrange(0, 6) == "data: "@
}

/// View of a line list.
pub open spec fn lines_view(ls: Seq<String>) -> Seq<Seq<char>> {
    ls.map_values(|l: String| l@)
}

/// The next `data: ` line at or after `pos`, with its trimmed payload.
pub open spec fn spec_next_data(lines: Seq<Seq<char>>, pos: int) -> Option<(int, Seq<char>)>
    decreases lines.len() - pos,
{
    if pos < 0 || pos >= lines.len() {
        None
    } else if spec_is_data_line(lines[pos]) {
        Some((pos, spec_trim(lines[pos].skip(6))))
    } else {
        spec_next_data(lines, pos + 1)
    }
}

/// A reader over the lines of an SSE stream, handing out one parsed
/// chat-completion chunk per `data: ` line, up to the `[DONE]` marker.
#[derive(Debug)]
pub struct SseChatCompletionIter {
    pub lines: Vec<String>,
    pub pos: usize,
}

impl SseChatCompletionIter {
    /// A reader over the given lines, starting at the first.
    pub fn new(lines: Vec<String>) -> (r: SseChatCompletionIter)
        ensures
            r.lines == lines,
            r.pos == 0,
    {
        SseChatCompletionIter { lines, pos: 0 }
    }

    /// A reader over the lines of a byte buffer; bytes that are not valid
    /// UTF-8 are rejected.
    pub fn from_bytes(bytes: &[u8]) -> (r: Result<SseChatCompletionIter, String>) {
        let text = match crate::strkit::utf8_to_string(bytes) {
            Some(t) => t,
            None => {
                return Err(String::from_str("stream bytes are not valid UTF-8"));
            },
        };
        Ok(SseChatCompletionIter::new(split_lines(text.as_str())))
    }

    /// The next chunk of the stream: the trimmed payload of the next
    /// `data: ` line, parsed, skipping every other line; nothing once the
    /// stream ends or the `[DONE]` marker is reached. A payload that is not
    /// valid JSON is handed back as an error.
    pub fn next_item(&mut self) -> (r: Option<Result<ChatCompletionStreamResponse, String>>)
        ensures
            final(self).lines == old(self).lines,
            final(self).pos >= old(self).pos,
            (match spec_next_data(lines_view(old(self).lines@), old(self).pos as int) {
                None => r is None,
                Some(d) => ({
                    &&& final(self).pos == d.0 + 1
                    &&& d.1 == "[DONE]"@ ==> r is None
                    &&& d.1 != "[DONE]"@ ==> ({
                        &&& r is Some
                        &&& parsed_json(d.1) is None ==> ({
                            &&& r matches Some(x)
                            &&& x is Err
                        })
                        &&& (match parsed_json(d.1) {
                            Some(j) => (match spec_chunk_of(j) {
                                Ok(c) => ({
                                    &&& r matches Some(x2)
                                    &&& x2 matches Ok(rc)
                                    &&& rc@ == c
                                }),
                                Err(_) => ({
                                    &&& r matches Some(x3)
                                    &&& x3 is Err
                                }),
                            }),
                            None => true,
                        })
                    })
                }),
            }),
    {
        let ghost lv = lines_view(old(self).lines@);
        let mut i = self.pos;
        while i < self.lines.len()
            invariant
                old(self).pos <= i,
                self.lines == old(self).lines,
                self.pos == old(self).pos,
                lv == lines_view(old(self).lines@),
                spec_next_data(lv, old(self).pos as int) == spec_next_data(lv, i as int),
            decreases self.lines@.len() - i,
        {
            let line = &self.lines[i];
            let n = line.as_str().unicode_len();
            proof {
                reveal_strlit("data: ");
                assert(lv[i as int] == old(self).lines@[i as int]@);
            }
            if n >= 6 && eq_substr_at(line.as_str(), 0, "data: ") {
                proof {
                    assert(spec_is_data_line(lv[i as int]));
                }
                let payload = line.as_str().substring_char(6, n);
                proof {
                    assert(payload@ =~= lv[i as int].skip(6));
                }
                let data = trim_blank(payload);
                proof {
                    reveal_strlit("[DONE]");
                    assert(spec_next_data(lv, i as int) == Some(
                        (i as int, spec_trim(lv[i as int].skip(6))),
                    ));
                }
                if str_eq(data.as_str(), "[DONE]") {
                    self.pos = i + 1;
                    return None;
                }
                self.pos = i + 1;
                return Some(stream_response_from_json(data.as_str()));
            }
            proof {
                assert(!spec_is_data_line(lv[i as int])) by {
                    if lv[i as int].len() >= 6 {
                        assert(line@.subrange(0, 6) == line@.subrange(
                            0,
                            "data: "@.len() as int,
                        ));
                    }
                }
            }
            i = i + 1;
        }
        self.pos = i;
        proof {
            assert(spec_next_data(lv, i as int) is None);
        }
        None
    }
}

/// What one content part's JSON object decodes to: a `text` or `image_url`
/// kind and the optional text, any other kind malformed.
pub open spec fn spec_part_of(j: JsonV) -> Result<MultiPartContentV, ()> {
    match j {
        JsonV::Obj(fs) => {
            let kind = spec_str_or_empty(fs, "type"@);
            if kind == "text"@ {
                Ok(
                    MultiPartContentV {
                        text: spec_str_or_none(fs, "text"@),
                        content_type: MultiPartContentType::Text,
                    },
                )
            } else if kind == "image_url"@ {
                Ok(
                    MultiPartContentV {
                        text: spec_str_or_none(fs, "text"@),
                        content_type: MultiPartContentType::ImageUrl,
                    },
                )
            } else {
                Err(())
            }
        },
        _ => Err(()),
    }
}

/// What a list of content parts decodes to.
pub open spec fn spec_parts_of(items: Seq<JsonV>) -> Result<Seq<MultiPartContentV>, ()>
    decreases items.len(),
{
    if items.len() == 0 {
        Ok(Seq::empty())
    } else {
        match spec_part_of(items[0]) {
            Ok(p) => match spec_parts_of(items.drop_first()) {
                Ok(rest) => Ok(seq![p] + rest),
                Err(_) => Err(()),
            },
            Err(_) => Err(()),
        }
    }
}

/// What a wire message's content decodes to, parts preserved.
pub open spec fn spec_wire_content_of(j: JsonV) -> Result<Option<ContentTypeV>, ()> {
    match j {
        JsonV::Str(t) => Ok(Some(ContentTypeV::Text(t))),
        JsonV::Null => Ok(None),
        JsonV::Arr(items) => match spec_parts_of(items) {
            Ok(parts) => Ok(Some(ContentTypeV::MultiPart(parts))),
            Err(_) => Err(()),
        },
        _ => Err(()),
    }
}

/// What one wire message decodes to: a lenient role, content preserved.
pub open spec fn spec_wire_message_of(j: JsonV) -> Result<WireMessageV, ()> {
    match j {
        JsonV::Obj(fs) => {
            let content_r = match spec_field_get(fs, "content"@) {
                Some(c) => spec_wire_content_of(c),
                None => Ok(None),
            };
            match content_r {
                Ok(content) => Ok(WireMessageV { role: spec_str_or_empty(fs, "role"@), content }),
                Err(_) => Err(()),
            }
        },
        _ => Err(()),
    }
}

/// The stream-choice index as the reader takes it: digits that fit, else 0.
pub open spec fn spec_stream_index_of(fs: Seq<(Seq<char>, JsonV)>) -> u32 {
    let n = spec_u64_or_zero(fs, "index"@);
    if n <= u32::MAX {
        n as u32
    } else {
        0
    }
}

/// What one stream choice decodes to: the delta is required.
pub open spec fn spec_stream_choice_of(j: JsonV) -> Result<StreamChoiceV, ()> {
    match j {
        JsonV::Obj(cfs) => match spec_field_get(cfs, "delta"@) {
            Some(dv) => match spec_wire_message_of(dv) {
                Ok(delta) => Ok(
                    StreamChoiceV {
                        index: spec_stream_index_of(cfs),
                        delta,
                        finish_reason: spec_str_or_none(cfs, "finish_reason"@),
                    },
                ),
                Err(_) => Err(()),
            },
            None => Err(()),
        },
        _ => Err(()),
    }
}

/// What a list of stream choices decodes to.
pub open spec fn spec_stream_choices_of(items: Seq<JsonV>) -> Result<Seq<StreamChoiceV>, ()>
    decreases items.len(),
{
    if items.len() == 0 {
        Ok(Seq::empty())
    } else {
        match spec_stream_choice_of(items[0]) {
            Ok(c) => match spec_stream_choices_of(items.drop_first()) {
                Ok(rest) => Ok(seq![c] + rest),
                Err(_) => Err(()),
            },
            Err(_) => Err(()),
        }
    }
}

/// What one stream chunk's JSON object decodes to; choices may be absent.
pub open spec fn spec_chunk_of(j: JsonV) -> Result<ChatCompletionStreamResponseV, ()> {
    match j {
        JsonV::Obj(fs) => {
            let choices_r: Result<Seq<StreamChoiceV>, ()> = match spec_field_get(
                fs,
                "choices"@,
            ) {
                Some(cv) => match cv {
                    JsonV::Arr(items) => spec_stream_choices_of(items),
                    _ => Err(()),
                },
                None => Ok(Seq::empty()),
            };
            match choices_r {
                Ok(choices) => Ok(
                    ChatCompletionStreamResponseV {
                        id: spec_str_or_empty(fs, "id"@),
                        object: spec_str_or_empty(fs, "object"@),
                        created: spec_u64_or_zero(fs, "created"@),
                        model: spec_str_or_empty(fs, "model"@),
                        choices,
                        usage: None,
                    },
                ),
                Err(_) => Err(()),
            }
        },
        _ => Err(()),
    }
}

/// Read one stream chunk out of its JSON text.
pub fn stream_response_from_json(s: &str) -> (r: Result<ChatCompletionStreamResponse, String>)
    ensures
        parsed_json(s@) is None ==> r is Err,
        (match parsed_json(s@) {
            Some(j) => match spec_chunk_of(j) {
                Ok(c) => ({
                    &&& r matches Ok(rc)
                    &&& rc@ == c
                }),
                Err(_) => r is Err,
            },
            None => true,
        }),
{
    proof {
        reveal_strlit("id");
        reveal_strlit("object");
        reveal_strlit("model");
        reveal_strlit("created");
        reveal_strlit("choices");
        reveal_strlit("index");
        reveal_strlit("delta");
        reveal_strlit("finish_reason");
    }
    let v = match crate::jsonval::parse_json(s) {
        Ok(v) => v,
        Err(e) => {
            return Err(e);
        },
    };
    let entries = match json_object_entries(&v) {
        Some(es) => es,
        None => {
            return Err(String::from_str("stream chunk is not a JSON object"));
        },
    };
    let ghost fs = val_of(v)->Obj_0;
    let id = str_field(&entries, "id", Ghost(fs));
    let object = str_field(&entries, "object", Ghost(fs));
    let model = str_field(&entries, "model", Ghost(fs));
    let created: u64 = match field_lookup(&entries, "created", Ghost(fs)) {
        Some(t) => match json_shape(t) {
            JsonShape::Num(txt) => match crate::parse::parse_u64(txt.as_str()) {
                Some(n) => n,
                None => 0,
            },
            _ => 0,
        },
        None => 0,
    };
    let choices: Vec<StreamChoice> = match field_lookup(&entries, "choices", Ghost(fs)) {
        Some(c) => match json_array_items(c) {
            Some(items) => {
                let ghost ch_items = val_of(*c)->Arr_0;
                let mut out: Vec<StreamChoice> = Vec::new();
                let mut i: usize = 0;
                proof {
                    assert(ch_items.skip(0) =~= ch_items);
                }
                while i < items.len()
                    invariant
                        i <= items@.len(),
                        items@.len() == ch_items.len(),
                        parsed_json(s@) == Some(val_of(v)),
                        spec_stream_choices_of(ch_items) is Err ==> spec_chunk_of(val_of(v))
                            is Err,
                        forall|k: int|
                            0 <= k < ch_items.len() ==> val_of(#[trigger] items@[k])
                                == ch_items[k],
                        (match spec_stream_choices_of(ch_items.skip(i as int)) {
                            Ok(rest) => spec_stream_choices_of(ch_items) == Ok::<
                                Seq<StreamChoiceV>,
                                (),
                            >(out@.map_values(|c: StreamChoice| c@) + rest),
                            Err(_) => spec_stream_choices_of(ch_items) is Err,
                        }),
                    decreases items@.len() - i,
                {
                    let ghost tail = ch_items.skip(i as int);
                    proof {
                        reveal_strlit("index");
                        reveal_strlit("delta");
                        reveal_strlit("finish_reason");
                        assert(tail[0] == ch_items[i as int]);
                        assert(tail.drop_first() =~= ch_items.skip(i + 1));
                    }
                    let centries = match json_object_entries(&items[i]) {
                        Some(es) => es,
                        None => {
                            return Err(String::from_str("stream choice is not an object"));
                        },
                    };
                    let ghost cfs = val_of(items@[i as int])->Obj_0;
                    let index: u32 = match field_lookup(&centries, "index", Ghost(cfs)) {
                        Some(t) => match json_shape(t) {
                            JsonShape::Num(txt) => match crate::parse::parse_u64(txt.as_str()) {
                                Some(n) => if n <= u32::MAX as u64 {
                                    n as u32
                                } else {
                                    0
                                },
                                None => 0,
                            },
                            _ => 0,
                        },
                        None => 0,
                    };
                    let delta: Message = match field_lookup(&centries, "delta", Ghost(cfs)) {
                        Some(d) => match message_from_json_value(d) {
                            Ok(m) => m,
                            Err(e) => {
                                return Err(e);
                            },
                        },
                        None => {
                            return Err(String::from_str("stream choice has no delta"));
                        },
                    };
                    let finish_reason = match field_lookup(&centries, "finish_reason", Ghost(cfs)) {
                        Some(t) => match json_shape(t) {
                            JsonShape::Str(s) => Some(s),
                            _ => None,
                        },
                        None => None,
                    };
                    let ghost out_before = out@;
                    let choice = StreamChoice { index, delta, finish_reason };
                    proof {
                        assert(choice@ =~= spec_stream_choice_of(tail[0])->Ok_0);
                    }
                    out.push(choice);
                    proof {
                        assert(out@.map_values(|c: StreamChoice| c@) =~= out_before.map_values(
                            |c: StreamChoice| c@,
                        ).push(spec_stream_choice_of(tail[0])->Ok_0));
                        let sub = spec_stream_choices_of(ch_items.skip(i + 1));
                        if sub is Ok {
                            assert(out_before.map_values(|c: StreamChoice| c@) + (seq![
                                spec_stream_choice_of(tail[0])->Ok_0,
                            ] + sub->Ok_0) =~= out@.map_values(|c: StreamChoice| c@) + sub->Ok_0);
                        }
                    }
                    i = i + 1;
                }
                proof {
                    assert(ch_items.skip(ch_items.len() as int) =~= Seq::<JsonV>::empty());
                    assert(out@.map_values(|c: StreamChoice| c@) + Seq::<StreamChoiceV>::empty()
                        =~= out@.map_values(|c: StreamChoice| c@));
                }
                out
            },
            None => {
                return Err(String::from_str("choices is not an array"));
            },
        },
        None => {
            let empty_choices: Vec<StreamChoice> = Vec::new();
            proof {
                assert(empty_choices@.map_values(|c: StreamChoice| c@) =~= Seq::<
                    StreamChoiceV,
                >::empty());
            }
            empty_choices
        },
    };
    let r = ChatCompletionStreamResponse { id, object, created, model, choices, usage: None };
    proof {
        assert(r@ =~= spec_chunk_of(val_of(v))->Ok_0);
    }
    Ok(r)
}

/// Read a wire message with plain or multi-part content.
pub fn message_from_json_value(v: &serde_json::Value) -> (r: Result<Message, String>)
    ensures
        (match spec_wire_message_of(val_of(*v)) {
            Ok(m) => ({
                &&& r matches Ok(rm)
                &&& rm@ == m
            }),
            Err(_) => r is Err,
        }),
{
    proof {
        reveal_strlit("role");
        reveal_strlit("content");
        reveal_strlit("type");
        reveal_strlit("text");
        reveal_strlit("image_url");
    }
    let entries = match json_object_entries(v) {
        Some(es) => es,
        None => {
            return Err(String::from_str("message is not an object"));
        },
    };
    let ghost fs = val_of(*v)->Obj_0;
    let role = str_field(&entries, "role", Ghost(fs));
    let content: Option<ContentType> = match field_lookup(&entries, "content", Ghost(fs)) {
        Some(c) => match json_shape(c) {
            JsonShape::Str(s) => Some(ContentType::Text(s)),
            JsonShape::Null => None,
            JsonShape::Array => {
                let items = match json_array_items(c) {
                    Some(items) => items,
                    None => {
                        proof {
                            assert(false);
                        }
                        return Err(String::from_str("content array unreadable"));
                    },
                };
                let ghost p_items = val_of(*c)->Arr_0;
                let mut parts: Vec<MultiPartContent> = Vec::new();
                let mut i: usize = 0;
                proof {
                    assert(p_items.skip(0) =~= p_items);
                }
                while i < items.len()
                    invariant
                        i <= items@.len(),
                        items@.len() == p_items.len(),
                        spec_parts_of(p_items) is Err ==> spec_wire_message_of(val_of(*v)) is Err,
                        forall|k: int|
                            0 <= k < p_items.len() ==> val_of(#[trigger] items@[k]) == p_items[k],
                        (match spec_parts_of(p_items.skip(i as int)) {
                            Ok(rest) => spec_parts_of(p_items) == Ok::<Seq<MultiPartContentV>, ()>(
                                parts@.map_values(|p: MultiPartContent| p@) + rest,
                            ),
                            Err(_) => spec_parts_of(p_items) is Err,
                        }),
                    decreases items@.len() - i,
                {
                    let ghost tail = p_items.skip(i as int);
                    proof {
                        reveal_strlit("type");
                        reveal_strlit("text");
                        reveal_strlit("image_url");
                        assert(tail[0] == p_items[i as int]);
                        assert(tail.drop_first() =~= p_items.skip(i + 1));
                    }
                    let pentries = match json_object_entries(&items[i]) {
                        Some(es) => es,
                        None => {
                            return Err(String::from_str("content part is not an object"));
                        },
                    };
                    let ghost pfs = val_of(items@[i as int])->Obj_0;
                    let kind = str_field(&pentries, "type", Ghost(pfs));
                    let content_type = if str_eq(kind.as_str(), "text") {
                        MultiPartContentType::Text
                    } else if str_eq(kind.as_str(), "image_url") {
                        MultiPartContentType::ImageUrl
                    } else {
                        return Err(String::from_str("unsupported content part type"));
                    };
                    let text = match field_lookup(&pentries, "text", Ghost(pfs)) {
                        Some(t) => match json_shape(t) {
                            JsonShape::Str(s) => Some(s),
                            _ => None,
                        },
                        None => None,
                    };
                    let ghost parts_before = parts@;
                    let part = MultiPartContent { text, content_type };
                    proof {
                        assert(part@ =~= spec_part_of(tail[0])->Ok_0);
                    }
                    parts.push(part);
                    proof {
                        assert(parts@.map_values(|p: MultiPartContent| p@)
                            =~= parts_before.map_values(|p: MultiPartContent| p@).push(
                            spec_part_of(tail[0])->Ok_0,
                        ));
                        let sub = spec_parts_of(p_items.skip(i + 1));
                        if sub is Ok {
                            assert(parts_before.map_values(|p: MultiPartContent| p@) + (seq![
                                spec_part_of(tail[0])->Ok_0,
                            ] + sub->Ok_0) =~= parts@.map_values(|p: MultiPartContent| p@)
                                + sub->Ok_0);
                        }
                    }
                    i = i + 1;
                }
                proof {
                    assert(p_items.skip(p_items.len() as int) =~= Seq::<JsonV>::empty());
                    assert(parts@.map_values(|p: MultiPartContent| p@) + Seq::<
                        MultiPartContentV,
                    >::empty() =~= parts@.map_values(|p: MultiPartContent| p@));
                }
                Some(ContentType::MultiPart(parts))
            },
            _ => {
                return Err(String::from_str("content has an unsupported type"));
            },
        },
        None => None,
    };
    let r = Message { role, content };
    proof {
        assert(r@ =~= spec_wire_message_of(val_of(*v))->Ok_0);
    }
    Ok(r)
}


} // verus!
