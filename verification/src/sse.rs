//! Synthetic server-sent-event frames the mux prepends when the agent flow
//! ran: each frame carries one stream chunk in the chat-completion chunk
//! shape, and the whole text is pinned character by character.

use vstd::prelude::*;

verus! {

use vstd::string::StringExecFns;
use crate::jsontext::{json_quoted, json_string_object, append_json_quoted, json_object_of_pairs};
use crate::templater::pairs_view;

/// A synthetic stream chunk: a model tag and an optional role and content
/// for its delta.
#[derive(Debug)]
pub struct SyntheticChunk {
    pub model: String,
    pub role: Option<String>,
    pub content: Option<String>,
}

/// The delta members of a synthetic chunk, in role-then-content order.
pub open spec fn spec_delta_pairs(role: Option<Seq<char>>, content: Option<Seq<char>>) -> Seq<
    (Seq<char>, Seq<char>),
> {
    let with_role: Seq<(Seq<char>, Seq<char>)> = match role {
        Some(r) => seq![("role"@, r)],
        None => Seq::empty(),
    };
    match content {
        Some(c) => with_role + seq![("content"@, c)],
        None => with_role,
    }
}

/// The JSON text of one synthetic stream chunk.
pub open spec fn spec_chunk_json(
    model: Seq<char>,
    role: Option<Seq<char>>,
    content: Option<Seq<char>>,
) -> Seq<char> {
    "{\"object\":\"chat.completion.chunk\",\"model\":"@ + json_quoted(model)
        + ",\"choices\":[{\"index\":0,\"delta\":"@ + json_string_object(
        spec_delta_pairs(role, content),
    ) + ",\"finish_reason\":null}]}"@
}

/// One SSE frame: `data: `, the chunk, and a blank line.
pub open spec fn spec_sse_frame(chunk_json: Seq<char>) -> Seq<char> {
    "data: "@ + chunk_json + "\n\n"@
}

/// The SSE text for a list of synthetic chunks, in order.
pub open spec fn spec_server_events(chunks: Seq<SyntheticChunk>) -> Seq<char>
    decreases chunks.len(),
{
    if chunks.len() == 0 {
        Seq::empty()
    } else {
        spec_sse_frame(
            spec_chunk_json(
                chunks[0].model@,
                crate::chat::opt_view(chunks[0].role),
                crate::chat::opt_view(chunks[0].content),
            ),
        ) + spec_server_events(chunks.drop_first())
    }
}

/// The JSON text of one synthetic stream chunk.
pub fn chunk_json(chunk: &SyntheticChunk) -> (r: String)
    ensures
        r@ == spec_chunk_json(
            chunk.model@,
            crate::chat::opt_view(chunk.role),
            crate::chat::opt_view(chunk.content),
        ),
{
    let mut pairs: Vec<(String, String)> = Vec::new();
    match &chunk.role {
        Some(role) => {
            pairs.push((String::from_str("role"), role.clone()));
        },
        None => {},
    }
    match &chunk.content {
        Some(content) => {
            pairs.push((String::from_str("content"), content.clone()));
        },
        None => {},
    }
    proof {
        assert(pairs_view(pairs@) =~= spec_delta_pairs(
            crate::chat::opt_view(chunk.role),
            crate::chat::opt_view(chunk.content),
        ));
    }
    let delta = json_object_of_pairs(&pairs);
    let mut out = String::from_str("{\"object\":\"chat.completion.chunk\",\"model\":");
    append_json_quoted(&mut out, chunk.model.as_str());
    out.append(",\"choices\":[{\"index\":0,\"delta\":");
    out.append(delta.as_str());
    out.append(",\"finish_reason\":null}]}");
    proof {
        assert(out@ =~= spec_chunk_json(
            chunk.model@,
            crate::chat::opt_view(chunk.role),
            crate::chat::opt_view(chunk.content),
        ));
    }
    out
}

/// The SSE text for a list of synthetic chunks, in order.
pub fn to_server_events(chunks: &Vec<SyntheticChunk>) -> (r: String)
    ensures
        r@ == spec_server_events(chunks@),
{
    let mut out = String::new();
    let mut i: usize = 0;
    proof {
        assert(chunks@.skip(0) =~= chunks@);
        assert(out@ + spec_server_events(chunks@) =~= spec_server_events(chunks@));
    }
    while i < chunks.len()
        invariant
            i <= chunks@.len(),
            out@ + spec_server_events(chunks@.skip(i as int)) == spec_server_events(chunks@),
        decreases chunks@.len() - i,
    {
        let ghost tail = chunks@.skip(i as int);
        proof {
            assert(tail[0] == chunks@[i as int]);
            assert(tail.drop_first() =~= chunks@.skip(i + 1));
        }
        let ghost out_before = out@;
        out.append("data: ");
        let cj = chunk_json(&chunks[i]);
        out.append(cj.as_str());
        out.append("\n\n");
        proof {
            assert(out@ =~= out_before + spec_sse_frame(cj@));
        }
        i = i + 1;
    }
    proof {
        assert(chunks@.skip(chunks@.len() as int) =~= Seq::<SyntheticChunk>::empty());
    }
    out
}

} // verus!
