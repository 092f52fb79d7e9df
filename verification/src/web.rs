// The web form: a page listing every Nest to write into, and a submit
// that files the text as a journal entry at the chosen address.
use vstd::prelude::*;

use crate::envelope::{InboundEnvelope, Payload, Source};
use crate::manifest::Manifest;
use crate::registry::{Registry, sorted_by_id};
use crate::text::{owned, push_all};

verus! {

/// What the form sends.
#[derive(Debug, Clone)]
pub struct SubmitForm {
    pub content: String,
    pub jd_address: String,
}

/// The envelope a form submission makes: manual, `text/journal`, at the
/// chosen address, created when received.
pub fn submit_envelope(form: SubmitForm) -> (r: InboundEnvelope)
    ensures
        r.source == Source::Manual,
        r.data_type@ == "text/journal"@,
        r.payload == Payload::Text(form.content),
        r.jd_address == Some(form.jd_address),
        r.meta@.len() == 0,
        r.tags@.len() == 0,
        r.created_at is None,
{
    InboundEnvelope {
        source: Source::Manual,
        data_type: owned("text/journal"),
        payload: Payload::Text(form.content),
        jd_address: Some(form.jd_address),
        meta: Vec::new(),
        tags: Vec::new(),
        created_at: None,
    }
}

/// The page's answer for an address no Nest has.
pub fn unknown_route_message(jd: &str) -> (r: String)
    ensures
        r@ == "Unknown route: "@ + jd@,
{
    let mut r = owned("Unknown route: ");
    push_all(&mut r, jd);
    r
}

/// The page's answer once the entry is written to `path`.
pub fn saved_message(path: &str) -> (r: String)
    ensures
        r@ == "Saved to "@ + path@,
{
    let mut r = owned("Saved to ");
    push_all(&mut r, path);
    r
}

/// The page's answer when writing failed.
pub fn failed_message(error: &str) -> (r: String)
    ensures
        r@ == "Error: "@ + error@,
{
    let mut r = owned("Error: ");
    push_all(&mut r, error);
    r
}

/// Whether (id, name) are those of a Nest of the registry.
pub open spec fn names_a_nest(reg: Seq<Manifest>, choice: (String, String)) -> bool {
    exists|k: int| 0 <= k < reg.len() && #[trigger] reg[k].id@ == choice.0@ && reg[k].name@ == choice.1@
}

/// The choices of the form's address list: (id, name) of every Nest, in
/// address order.
pub fn route_choices(registry: &Registry) -> (r: Vec<(String, String)>)
    requires
        registry.wf(),
    ensures
        r@.len() == registry@.len(),
        forall|i: int, j: int| 0 <= i < j < r@.len() ==> crate::text::lex_lt(#[trigger] r@[i].0@, #[trigger] r@[j].0@),
        forall|i: int| 0 <= i < r@.len() ==> names_a_nest(registry@, #[trigger] r@[i]),
{
    let all = registry.all();
    let ghost ms = all@.map_values(|m: &Manifest| *m);
    let mut out: Vec<(String, String)> = Vec::new();
    let mut i: usize = 0;
    while i < all.len()
        invariant
            i <= all@.len(),
            ms == all@.map_values(|m: &Manifest| *m),
            sorted_by_id(ms),
            forall|k: int| 0 <= k < all@.len() ==> registry@.contains(#[trigger] *all@[k]),
            out@.len() == i,
            forall|k: int| 0 <= k < i ==> #[trigger] out@[k].0@ == ms[k].id@ && out@[k].1@ == ms[k].name@,
        decreases all.len() - i,
    {
        out.push((all[i].id.clone(), all[i].name.clone()));
        i = i + 1;
    }
    proof {
        assert forall|a: int, b: int| 0 <= a < b < out@.len() implies crate::text::lex_lt(
            #[trigger] out@[a].0@,
            #[trigger] out@[b].0@,
        ) by {
            assert(out@[a].0@ == ms[a].id@ && out@[b].0@ == ms[b].id@);
        }
        assert forall|a: int| 0 <= a < out@.len() implies names_a_nest(registry@, #[trigger] out@[a]) by {
            assert(registry@.contains(*all@[a]));
            let k = choose|k: int| 0 <= k < registry@.len() && registry@[k] == *all@[a];
            assert(ms[a] == *all@[a]);
            assert(registry@[k].id@ == out@[a].0@);
        }
    }
    out
}

} // verus!
