//! The response mux: forward upstream bytes back to the client, prepending
//! synthetic SSE frames when the agent flow ran, or rewriting a buffered
//! JSON body so that its metadata carries the round-tripped state blob.

use vstd::prelude::*;

verus! {

use vstd::string::StringExecFns;
use crate::chat::opt_view;
use crate::jsontext::{append_json_quoted, json_quoted};
use crate::jsonval::{json_object_entries, json_text, json_text_of, parse_json, parsed_json, val_of, JsonV};
use crate::orchestrate::StreamContext;
use crate::sse::{spec_chunk_json, spec_sse_frame, to_server_events, SyntheticChunk};
use crate::strkit::str_eq;
use crate::templater::{pairs_view, spec_lookup};

impl StreamContext {
    /// Record the arrival of the first response byte. The timestamp is set
    /// at most once per request: a later call changes nothing.
    pub fn note_first_token(&mut self, now: u128)
        ensures
            old(self).time_to_first_token is Some ==> *final(self) == *old(self),
            old(self).time_to_first_token is None ==> *final(self) == (StreamContext {
                time_to_first_token: Some(now),
                ..*old(self)
            }),
    {
        if self.time_to_first_token.is_none() {
            self.time_to_first_token = Some(now);
        }
    }

    /// One streamed chunk on its way back to the client. Every byte that
    /// leaves is either the upstream chunk verbatim, or, once per request,
    /// the synthetic SSE frames of the agent flow followed by that chunk;
    /// never a bare JSON object.
    pub fn on_streaming_chunk(&mut self, chunk: String) -> (r: String)
        ensures
            final(self).time_to_first_token == old(self).time_to_first_token,
            (match old(self).tool_calls {
                Some(ts) => ts@.len() == 0,
                None => true,
            }) ==> r == chunk && *final(self) == *old(self),
            (match old(self).tool_calls {
                Some(ts) => ts@.len() > 0,
                None => false,
            }) ==> ({
                let model = match opt_view(old(self).fc_model_name) {
                    Some(m) => m,
                    None => Seq::empty(),
                };
                &&& r@ == spec_sse_frame(
                    spec_chunk_json(
                        model,
                        Some("assistant"@),
                        opt_view(old(self).arch_fc_response),
                    ),
                ) + spec_sse_frame(
                    spec_chunk_json(
                        model,
                        Some("assistant"@),
                        opt_view(old(self).tool_call_response),
                    ),
                ) + chunk@
                &&& final(self).tool_calls is None
            }),
    {
        let has_tool_calls = match &self.tool_calls {
            Some(ts) => ts.len() > 0,
            None => false,
        };
        if !has_tool_calls {
            return chunk;
        }
        let model: String = match &self.fc_model_name {
            Some(m) => m.clone(),
            None => String::new(),
        };
        let fc_buffer: Option<String> = match &self.arch_fc_response {
            Some(b) => Some(b.clone()),
            None => None,
        };
        let tool_body: Option<String> = match &self.tool_call_response {
            Some(b) => Some(b.clone()),
            None => None,
        };
        let mut chunks: Vec<SyntheticChunk> = Vec::new();
        chunks.push(
            SyntheticChunk {
                model: model.clone(),
                role: Some(String::from_str("assistant")),
                content: fc_buffer,
            },
        );
        chunks.push(
            SyntheticChunk { model, role: Some(String::from_str("assistant")), content: tool_body },
        );
        let mut out = to_server_events(&chunks);
        proof {
            reveal_with_fuel(crate::sse::spec_server_events, 4);
            assert(chunks@.drop_first()[0] == chunks@[1]);
            assert(chunks@.drop_first().drop_first() =~= Seq::<SyntheticChunk>::empty());
        }
        let ghost prefix = out@;
        out.append(chunk.as_str());
        self.tool_calls = None;
        proof {
            assert(out@ =~= prefix + chunk@);
        }
        out
    }
}

/// The members of a JSON object whose values are already JSON text.
pub open spec fn spec_raw_members(ps: Seq<(Seq<char>, Seq<char>)>, first: bool) -> Seq<char>
    decreases ps.len(),
{
    if ps.len() == 0 {
        Seq::empty()
    } else {
        let lead: Seq<char> = if first {
            Seq::empty()
        } else {
            seq![',']
        };
        lead + json_quoted(ps[0].0) + seq![':'] + ps[0].1 + spec_raw_members(
            ps.drop_first(),
            false,
        )
    }
}

/// A JSON object whose values are already JSON text.
pub open spec fn spec_raw_object(ps: Seq<(Seq<char>, Seq<char>)>) -> Seq<char> {
    seq!['{'] + spec_raw_members(ps, true) + seq!['}']
}

/// The members of the rewritten metadata object: every member of the
/// upstream's own metadata except `x-arch-state`, then, when the request
/// carried a state blob, that blob as the `x-arch-state` string member.
pub open spec fn spec_meta_members(
    meta: Seq<(Seq<char>, Seq<char>)>,
    arch_state: Option<Seq<char>>,
) -> Seq<(Seq<char>, Seq<char>)> {
    let kept = meta.filter(|p: (Seq<char>, Seq<char>)| p.0 != "x-arch-state"@);
    match arch_state {
        Some(s) => kept.push(("x-arch-state"@, json_quoted(s))),
        None => kept,
    }
}

/// The rewritten response body: the upstream's own members, except that
/// `metadata` is replaced by the rewritten metadata object.
pub open spec fn spec_rewritten_body(
    fields: Seq<(Seq<char>, Seq<char>)>,
    meta: Seq<(Seq<char>, Seq<char>)>,
    arch_state: Option<Seq<char>>,
) -> Seq<char> {
    spec_raw_object(
        fields.push(("metadata"@, spec_raw_object(spec_meta_members(meta, arch_state)))),
    )
}

/// Each field paired with its value's JSON text.
pub open spec fn spec_texts_of(mfs: Seq<(Seq<char>, JsonV)>) -> Seq<(Seq<char>, Seq<char>)> {
    mfs.map_values(|f: (Seq<char>, JsonV)| (f.0, json_text_of(f.1)))
}

/// The top-level members the rewrite keeps, each value as its JSON text,
/// the metadata member excluded.
pub open spec fn spec_rewrite_fields(fields: Seq<(Seq<char>, JsonV)>) -> Seq<
    (Seq<char>, Seq<char>),
>
    decreases fields.len(),
{
    if fields.len() == 0 {
        Seq::empty()
    } else {
        let rest = spec_rewrite_fields(fields.drop_first());
        if fields[0].0 == "metadata"@ {
            rest
        } else {
            seq![(fields[0].0, json_text_of(fields[0].1))] + rest
        }
    }
}

/// The members of the upstream's own metadata object, each value as its
/// JSON text; a missing, null or non-object metadata contributes none.
pub open spec fn spec_meta_fields(fields: Seq<(Seq<char>, JsonV)>) -> Seq<(Seq<char>, Seq<char>)>
    decreases fields.len(),
{
    if fields.len() == 0 {
        Seq::empty()
    } else {
        let rest = spec_meta_fields(fields.drop_first());
        if fields[0].0 == "metadata"@ {
            (match fields[0].1 {
                JsonV::Obj(mfs) => spec_texts_of(mfs),
                _ => Seq::empty(),
            }) + rest
        } else {
            rest
        }
    }
}

/// The rewrite of a parsed upstream object, member for member.
pub open spec fn spec_rewrite_of(
    fields: Seq<(Seq<char>, JsonV)>,
    arch_state: Option<Seq<char>>,
) -> Seq<char> {
    spec_rewritten_body(spec_rewrite_fields(fields), spec_meta_fields(fields), arch_state)
}

/// A state blob the request carried is found unchanged in the rewritten
/// metadata, whatever the upstream's own metadata held.
pub proof fn lemma_arch_state_round_trip(
    request_metadata: Seq<(Seq<char>, Seq<char>)>,
    upstream_meta: Seq<(Seq<char>, Seq<char>)>,
)
    requires
        spec_lookup(request_metadata, "x-arch-state"@) is Some,
    ensures
        spec_lookup(
            spec_meta_members(upstream_meta, spec_lookup(request_metadata, "x-arch-state"@)),
            "x-arch-state"@,
        ) == Some(json_quoted(spec_lookup(request_metadata, "x-arch-state"@).unwrap())),
{
    let s = spec_lookup(request_metadata, "x-arch-state"@).unwrap();
    let kept = upstream_meta.filter(|p: (Seq<char>, Seq<char>)| p.0 != "x-arch-state"@);
    broadcast use vstd::seq_lib::group_filter_ensures;

    lemma_lookup_after_push(kept, "x-arch-state"@, json_quoted(s));
}

/// Looking a key up in a pair list that nowhere binds it finds exactly the
/// pair pushed at its end.
pub proof fn lemma_lookup_after_push(ps: Seq<(Seq<char>, Seq<char>)>, k: Seq<char>, v: Seq<char>)
    requires
        forall|i: int| 0 <= i < ps.len() ==> (#[trigger] ps[i]).0 != k,
    ensures
        spec_lookup(ps.push((k, v)), k) == Some(v),
    decreases ps.len(),
{
    if ps.len() == 0 {
        assert(ps.push((k, v))[0] == (k, v));
    } else {
        assert(ps.push((k, v))[0] == ps[0]);
        assert(ps.push((k, v)).drop_first() =~= ps.drop_first().push((k, v)));
        assert(forall|i: int|
            0 <= i < ps.drop_first().len() ==> (#[trigger] ps.drop_first()[i]).0 != k) by {
            assert(forall|i: int|
                0 <= i < ps.drop_first().len() ==> ps.drop_first()[i] == ps[i + 1]);
        }
        lemma_lookup_after_push(ps.drop_first(), k, v);
    }
}

/// Append the members of a raw-valued object.
fn append_raw_members(out: &mut String, ps: &Vec<(String, String)>, first: bool)
    ensures
        final(out)@ == old(out)@ + spec_raw_members(pairs_view(ps@), first),
{
    let first0 = first;
    let mut first = first;
    let mut i: usize = 0;
    let ghost pv = pairs_view(ps@);
    proof {
        assert(pv.skip(0) =~= pv);
    }
    while i < ps.len()
        invariant
            i <= ps@.len(),
            pv == pairs_view(ps@),
            first == (first0 && i == 0),
            first0 == (match old(out)@.len() {
                _ => first0,
            }),
            out@ + spec_raw_members(pv.skip(i as int), first) == old(out)@ + spec_raw_members(
                pv,
                first0,
            ),
        decreases ps@.len() - i,
    {
        let ghost tail = pv.skip(i as int);
        proof {
            assert(tail[0] == pv[i as int]);
            assert(tail.drop_first() =~= pv.skip(i + 1));
        }
        let ghost out_before = out@;
        if !first {
            out.append(",");
            proof {
                reveal_strlit(",");
            }
        }
        let kv = &ps[i];
        append_json_quoted(out, kv.0.as_str());
        out.append(":");
        out.append(kv.1.as_str());
        proof {
            reveal_strlit(":");
            let lead: Seq<char> = if first {
                Seq::empty()
            } else {
                seq![',']
            };
            assert(out@ =~= out_before + lead + json_quoted(tail[0].0) + seq![':'] + tail[0].1);
        }
        first = false;
        i = i + 1;
    }
    proof {
        assert(pv.skip(ps@.len() as int) =~= Seq::<(Seq<char>, Seq<char>)>::empty());
    }
}

/// Assemble the rewritten response body from the upstream's members (their
/// values as raw JSON text, `metadata` excluded), the upstream metadata's
/// members, and the request's state blob.
pub fn assemble_rewrite(
    fields: &Vec<(String, String)>,
    meta_fields: &Vec<(String, String)>,
    arch_state: &Option<String>,
) -> (r: String)
    ensures
        r@ == spec_rewritten_body(
            pairs_view(fields@),
            pairs_view(meta_fields@),
            opt_view(*arch_state),
        ),
{
    // the rewritten metadata object
    let mut meta_pairs: Vec<(String, String)> = Vec::new();
    let mut i: usize = 0;
    proof {
        reveal(Seq::filter);
        assert(pairs_view(meta_fields@.take(0)) =~= Seq::<(Seq<char>, Seq<char>)>::empty());
        assert(pairs_view(meta_pairs@) =~= pairs_view(meta_fields@.take(0)).filter(
            |p: (Seq<char>, Seq<char>)| p.0 != "x-arch-state"@,
        ));
    }
    while i < meta_fields.len()
        invariant
            i <= meta_fields@.len(),
            pairs_view(meta_pairs@) =~= pairs_view(meta_fields@.take(i as int)).filter(
                |p: (Seq<char>, Seq<char>)| p.0 != "x-arch-state"@,
            ),
        decreases meta_fields@.len() - i,
    {
        let kv = &meta_fields[i];
        proof {
            reveal(Seq::filter);
            assert(pairs_view(meta_fields@.take(i + 1)).drop_last() =~= pairs_view(
                meta_fields@.take(i as int),
            ));
            assert(pairs_view(meta_fields@.take(i + 1)).last() == (
                meta_fields@[i as int].0@,
                meta_fields@[i as int].1@,
            ));
        }
        if !str_eq(kv.0.as_str(), "x-arch-state") {
            let ghost before = pairs_view(meta_pairs@);
            meta_pairs.push((kv.0.clone(), kv.1.clone()));
            proof {
                assert(pairs_view(meta_pairs@) =~= before.push(
                    (meta_fields@[i as int].0@, meta_fields@[i as int].1@),
                ));
            }
        }
        i = i + 1;
    }
    proof {
        assert(meta_fields@.take(meta_fields@.len() as int) =~= meta_fields@);
    }
    match arch_state {
        Some(s) => {
            let ghost before = pairs_view(meta_pairs@);
            let mut quoted = String::new();
            append_json_quoted(&mut quoted, s.as_str());
            proof {
                assert(quoted@ =~= json_quoted(s@));
            }
            meta_pairs.push((String::from_str("x-arch-state"), quoted));
            proof {
                assert(pairs_view(meta_pairs@) =~= before.push(("x-arch-state"@, json_quoted(s@))));
            }
        },
        None => {},
    }
    let mut meta_text = String::from_str("{");
    proof {
        reveal_strlit("{");
        assert(meta_text@ =~= seq!['{']);
    }
    append_raw_members(&mut meta_text, &meta_pairs, true);
    meta_text.append("}");
    proof {
        reveal_strlit("}");
        assert(meta_text@ =~= spec_raw_object(pairs_view(meta_pairs@)));
    }

    // the rewritten top-level object
    let mut all_pairs: Vec<(String, String)> = crate::chat::duplicate_pairs(fields);
    let ghost fields_v = pairs_view(all_pairs@);
    all_pairs.push((String::from_str("metadata"), meta_text));
    proof {
        assert(pairs_view(all_pairs@) =~= fields_v.push(
            (
                "metadata"@,
                spec_raw_object(
                    spec_meta_members(pairs_view(meta_fields@), opt_view(*arch_state)),
                ),
            ),
        ));
    }
    let mut out = String::from_str("{");
    proof {
        reveal_strlit("{");
        assert(out@ =~= seq!['{']);
    }
    append_raw_members(&mut out, &all_pairs, true);
    out.append("}");
    proof {
        reveal_strlit("}");
        assert(out@ =~= spec_rewritten_body(
            pairs_view(fields@),
            pairs_view(meta_fields@),
            opt_view(*arch_state),
        ));
    }
    out
}

/// Rewrite a buffered upstream body so that its metadata member exists and
/// carries the request's state blob; a body that is not a JSON object is
/// handed back unchanged, as the upstream sent it.
pub fn rewrite_nonstream_body(body: &str, arch_state: &Option<String>) -> (r: String)
    ensures
        (match parsed_json(body@) {
            Some(j) => match j {
                JsonV::Obj(fields) => r@ == spec_rewrite_of(fields, opt_view(*arch_state)),
                _ => r@ == body@,
            },
            None => r@ == body@,
        }),
{
    let v = match parse_json(body) {
        Ok(v) => v,
        Err(_) => {
            return body.to_owned();
        },
    };
    let entries = match json_object_entries(&v) {
        Some(es) => es,
        None => {
            return body.to_owned();
        },
    };
    let ghost fv = val_of(v)->Obj_0;
    let mut fields: Vec<(String, String)> = Vec::new();
    let mut meta_fields: Vec<(String, String)> = Vec::new();
    let mut i: usize = 0;
    proof {
        reveal_strlit("metadata");
        assert(fv.skip(0) =~= fv);
        assert(pairs_view(fields@) + spec_rewrite_fields(fv) =~= spec_rewrite_fields(fv));
        assert(pairs_view(meta_fields@) + spec_meta_fields(fv) =~= spec_meta_fields(fv));
    }
    while i < entries.len()
        invariant
            i <= entries@.len(),
            entries@.len() == fv.len(),
            forall|k: int|
                0 <= k < fv.len() ==> (#[trigger] entries@[k]).0@ == fv[k].0 && val_of(
                    entries@[k].1,
                ) == fv[k].1,
            pairs_view(fields@) + spec_rewrite_fields(fv.skip(i as int)) == spec_rewrite_fields(
                fv,
            ),
            pairs_view(meta_fields@) + spec_meta_fields(fv.skip(i as int)) == spec_meta_fields(fv),
        decreases entries@.len() - i,
    {
        let ghost tail = fv.skip(i as int);
        proof {
            reveal_strlit("metadata");
            assert(tail[0] == fv[i as int]);
            assert(tail.drop_first() =~= fv.skip(i + 1));
        }
        let kv = &entries[i];
        if str_eq(kv.0.as_str(), "metadata") {
            match json_object_entries(&kv.1) {
                Some(mes) => {
                    let ghost mfs = val_of(entries@[i as int].1)->Obj_0;
                    let ghost meta_before = pairs_view(meta_fields@);
                    let mut j: usize = 0;
                    proof {
                        assert(pairs_view(meta_fields@) =~= meta_before + spec_texts_of(
                            mfs.take(0),
                        ));
                    }
                    while j < mes.len()
                        invariant
                            j <= mes@.len(),
                            mes@.len() == mfs.len(),
                            forall|k: int|
                                0 <= k < mfs.len() ==> (#[trigger] mes@[k]).0@ == mfs[k].0
                                    && val_of(mes@[k].1) == mfs[k].1,
                            pairs_view(meta_fields@) =~= meta_before + spec_texts_of(
                                mfs.take(j as int),
                            ),
                        decreases mes@.len() - j,
                    {
                        let ghost before = pairs_view(meta_fields@);
                        meta_fields.push((mes[j].0.clone(), json_text(&mes[j].1)));
                        proof {
                            assert(pairs_view(meta_fields@) =~= before.push(
                                (mfs[j as int].0, json_text_of(mfs[j as int].1)),
                            ));
                            assert(spec_texts_of(mfs.take(j + 1)) =~= spec_texts_of(
                                mfs.take(j as int),
                            ).push((mfs[j as int].0, json_text_of(mfs[j as int].1))));
                            assert(before.push((mfs[j as int].0, json_text_of(mfs[j as int].1)))
                                =~= meta_before + spec_texts_of(mfs.take(j + 1)));
                        }
                        j = j + 1;
                    }
                    proof {
                        assert(mfs.take(mfs.len() as int) =~= mfs);
                        assert(pairs_view(meta_fields@) + spec_meta_fields(fv.skip(i + 1))
                            =~= meta_before + (spec_texts_of(mfs) + spec_meta_fields(
                            fv.skip(i + 1),
                        )));
                    }
                },
                None => {
                    // a null or non-object metadata is replaced whole
                },
            }
        } else {
            let ghost before = pairs_view(fields@);
            fields.push((kv.0.clone(), json_text(&kv.1)));
            proof {
                assert(pairs_view(fields@) =~= before.push(
                    (tail[0].0, json_text_of(tail[0].1)),
                ));
                assert(before.push((tail[0].0, json_text_of(tail[0].1))) =~= before + seq![
                    (tail[0].0, json_text_of(tail[0].1)),
                ]);
            }
        }
        i = i + 1;
    }
    proof {
        assert(fv.skip(fv.len() as int) =~= Seq::<(Seq<char>, JsonV)>::empty());
        assert(pairs_view(fields@) + Seq::<(Seq<char>, Seq<char>)>::empty() =~= pairs_view(
            fields@,
        ));
        assert(pairs_view(meta_fields@) + Seq::<(Seq<char>, Seq<char>)>::empty() =~= pairs_view(
            meta_fields@,
        ));
    }
    assemble_rewrite(&fields, &meta_fields, arch_state)
}


impl StreamContext {
    /// One response-body event: a non-chat request passes through; the
    /// first byte's arrival is recorded once; a streamed chunk leaves
    /// verbatim or behind the synthetic frames; a buffered reply of a
    /// request whose agent flow ran is rewritten to carry the state blob.
    pub fn on_http_response_body(&mut self, body: String, now: u128) -> (r: String)
        ensures
            !old(self).is_chat_completions_request ==> r == body && *final(self) == *old(self),
            old(self).is_chat_completions_request ==> final(self).time_to_first_token == (
            match old(self).time_to_first_token {
                Some(t) => Some(t),
                None => Some(now),
            }),
            (old(self).is_chat_completions_request && old(self).streaming_response) ==> ({
                &&& (match old(self).tool_calls {
                    Some(ts) => ts@.len() == 0,
                    None => true,
                }) ==> r == body
                &&& (match old(self).tool_calls {
                    Some(ts) => ts@.len() > 0,
                    None => false,
                }) ==> ({
                    let model = match opt_view(old(self).fc_model_name) {
                        Some(m) => m,
                        None => Seq::empty(),
                    };
                    &&& r@ == spec_sse_frame(
                        spec_chunk_json(
                            model,
                            Some("assistant"@),
                            opt_view(old(self).arch_fc_response),
                        ),
                    ) + spec_sse_frame(
                        spec_chunk_json(
                            model,
                            Some("assistant"@),
                            opt_view(old(self).tool_call_response),
                        ),
                    ) + body@
                    &&& final(self).tool_calls is None
                })
            }),
            (old(self).is_chat_completions_request && !old(self).streaming_response) ==> ({
                &&& (match old(self).tool_calls {
                    Some(ts) => ts@.len() == 0,
                    None => true,
                }) ==> r == body
                &&& (match old(self).tool_calls {
                    Some(ts) => ts@.len() > 0,
                    None => false,
                }) ==> (match parsed_json(body@) {
                    Some(j) => match j {
                        JsonV::Obj(fields) => r@ == spec_rewrite_of(
                            fields,
                            opt_view(old(self).arch_state),
                        ),
                        _ => r@ == body@,
                    },
                    None => r@ == body@,
                })
            }),
    {
        if !self.is_chat_completions_request {
            return body;
        }
        self.note_first_token(now);
        if self.streaming_response {
            self.on_streaming_chunk(body)
        } else {
            let has_tool_calls = match &self.tool_calls {
                Some(ts) => ts.len() > 0,
                None => false,
            };
            if has_tool_calls {
                let arch_state: Option<String> = match &self.arch_state {
                    Some(s) => Some(s.clone()),
                    None => None,
                };
                rewrite_nonstream_body(body.as_str(), &arch_state)
            } else {
                body
            }
        }
    }
}

} // verus!
