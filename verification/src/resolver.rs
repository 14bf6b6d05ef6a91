//! Layered variable resolution with secret masking.
//!
//! A resolver holds ordered layers of name/value bindings plus the set of
//! secret names. Display resolution (`resolve`) masks secrets; send
//! resolution (`resolve_for_send`) substitutes their real values.

use vstd::prelude::*;

use crate::interpolator::{parse_vars, scan_vars, spans_view, spans_wf_from, lemma_scan_vars_wf};
use crate::text::str_eq_str;

verus! {

/// One ordered name/value mapping; the last entry with a given name wins,
/// as a map filled by repeated insertion behaves.
pub struct VariableLayer {
    pub entries: Vec<(String, String)>,
}

/// Lookup outcome of one placeholder.
pub enum VarStatus {
    Resolved(String),
    Unresolved,
    Secret,
}

/// One placeholder of the input, with its position in the *output* string.
pub struct VarSpan {
    pub start: usize,
    pub end: usize,
    pub variable_name: String,
    pub status: VarStatus,
}

/// A display-resolved string together with the spans of its substitutions.
pub struct ResolvedString {
    pub value: String,
    pub spans: Vec<VarSpan>,
}

/// Layered name/value lookup with a set of secret names.
pub struct EnvResolver {
    pub layers: Vec<VariableLayer>,
    pub secret_keys: Vec<String>,
}

/// Value of `name` in one layer: the last entry with that name.
pub open spec fn layer_lookup(entries: Seq<(String, String)>, name: Seq<char>) -> Option<
    Seq<char>,
>
    decreases entries.len(),
{
    if entries.len() == 0 {
        None
    } else if entries.last().0@ == name {
        Some(entries.last().1@)
    } else {
        layer_lookup(entries.drop_last(), name)
    }
}

/// Value of `name` across layers: the first layer containing it wins.
pub open spec fn layers_lookup(layers: Seq<VariableLayer>, name: Seq<char>) -> Option<Seq<char>>
    decreases layers.len(),
{
    if layers.len() == 0 {
        None
    } else {
        match layer_lookup(layers[0].entries@, name) {
            Some(v) => Some(v),
            None => layers_lookup(layers.drop_first(), name),
        }
    }
}

/// Is `name` in the secret set?
pub open spec fn in_secret_set(keys: Seq<String>, name: Seq<char>) -> bool {
    exists|i: int| 0 <= i < keys.len() && keys[i]@ == name
}

/// The fixed mask shown in place of a secret value.
pub open spec fn mask_seq() -> Seq<char> {
    seq!['\u{2022}', '\u{2022}', '\u{2022}', '\u{2022}', '\u{2022}', '\u{2022}', '\u{2022}', '\u{2022}']
}

/// The fixed mask, eight bullet characters.
pub fn mask_string() -> (r: String)
    ensures
        r@ == mask_seq(),
{
    let s = "••••••••";
    proof {
        reveal_strlit("••••••••");
        assert(s@ =~= mask_seq());
    }
    s.to_owned()
}

/// End offset of the span before `k` in the input, or 0 for the first.
pub open spec fn prev_end(spans: Seq<(int, int, Seq<char>)>, k: int) -> int {
    if k <= 0 {
        0
    } else {
        spans[k - 1].1
    }
}

impl EnvResolver {
    /// Value of `name`, searching layers in priority order.
    pub open spec fn lookup_spec(&self, name: Seq<char>) -> Option<Seq<char>> {
        layers_lookup(self.layers@, name)
    }

    /// Is `name` marked secret?
    pub open spec fn is_secret_spec(&self, name: Seq<char>) -> bool {
        in_secret_set(self.secret_keys@, name)
    }

    /// What replaces span `sp` of input `s` in the output, masking secrets
    /// when `for_send` is false; unresolved names keep their literal text.
    pub open spec fn repl(&self, s: Seq<char>, sp: (int, int, Seq<char>), for_send: bool) -> Seq<
        char,
    > {
        match self.lookup_spec(sp.2) {
            Some(v) => if !for_send && self.is_secret_spec(sp.2) {
                mask_seq()
            } else {
                v
            },
            None => s.subrange(sp.0, sp.1),
        }
    }

    /// Output text up to (and including) the replacement of span `k`.
    pub open spec fn out_upto(
        &self,
        s: Seq<char>,
        spans: Seq<(int, int, Seq<char>)>,
        k: int,
        for_send: bool,
    ) -> Seq<char>
        decreases k,
    {
        if k <= 0 {
            Seq::empty()
        } else {
            self.out_upto(s, spans, k - 1, for_send) + s.subrange(
                prev_end(spans, k - 1),
                spans[k - 1].0,
            ) + self.repl(s, spans[k - 1], for_send)
        }
    }

    /// The whole output text for input `s`.
    pub open spec fn out_value(&self, s: Seq<char>, for_send: bool) -> Seq<char> {
        let spans = scan_vars(s, 0);
        self.out_upto(s, spans, spans.len() as int, for_send) + s.subrange(
            prev_end(spans, spans.len() as int),
            s.len() as int,
        )
    }

    /// Offset of span `k`'s replacement in the output string.
    pub open spec fn seg_start(&self, s: Seq<char>, k: int, for_send: bool) -> int {
        let spans = scan_vars(s, 0);
        self.out_upto(s, spans, k, for_send).len() + (spans[k].0 - prev_end(spans, k))
    }

    /// What `resolve` promises of output span `k`.
    pub open spec fn span_ok(&self, s: Seq<char>, k: int, out: VarSpan) -> bool {
        let spans = scan_vars(s, 0);
        let sp = spans[k];
        &&& out.variable_name@ == sp.2
        &&& out.start as int == self.seg_start(s, k, false)
        &&& out.end == out.start + self.repl(s, sp, false).len()
        &&& match self.lookup_spec(sp.2) {
            Some(v) => if self.is_secret_spec(sp.2) {
                out.status is Secret
            } else {
                out.status matches VarStatus::Resolved(w) && w@ == v
            },
            None => out.status is Unresolved,
        }
    }
}

/// Value of the given name in one layer, taking the last matching entry.
fn find_in_layer(layer: &VariableLayer, name: &str) -> (r: Option<String>)
    ensures
        match r {
            Some(v) => layer_lookup(layer.entries@, name@) == Some(v@),
            None => layer_lookup(layer.entries@, name@) is None,
        },
{
    let n = layer.entries.len();
    let mut found: Option<String> = None;
    let mut k: usize = 0;
    proof {
        assert(layer.entries@.take(0) =~= Seq::<(String, String)>::empty());
    }
    while k < n
        invariant
            n == layer.entries@.len(),
            k <= n,
            match found {
                Some(v) => layer_lookup(layer.entries@.take(k as int), name@) == Some(v@),
                None => layer_lookup(layer.entries@.take(k as int), name@) is None,
            },
        decreases n - k,
    {
        proof {
            let sub = layer.entries@.take(k + 1);
            assert(sub.last() == layer.entries@[k as int]);
            assert(sub.drop_last() =~= layer.entries@.take(k as int));
        }
        let entry = &layer.entries[k];
        if str_eq_str(entry.0.as_str(), name) {
            found = Some(entry.1.clone());
        }
        k = k + 1;
    }
    proof {
        assert(layer.entries@.take(n as int) =~= layer.entries@);
    }
    found
}

impl EnvResolver {
    pub fn new(layers: Vec<VariableLayer>, secret_keys: Vec<String>) -> (r: EnvResolver)
        ensures
            r.layers == layers,
            r.secret_keys == secret_keys,
    {
        EnvResolver { layers, secret_keys }
    }

    /// Look up a variable name across all layers, in priority order.
    fn lookup(&self, name: &str) -> (r: Option<String>)
        ensures
            match r {
                Some(v) => self.lookup_spec(name@) == Some(v@),
                None => self.lookup_spec(name@) is None,
            },
    {
        let n = self.layers.len();
        let mut k: usize = 0;
        proof {
            assert(self.layers@.skip(0) =~= self.layers@);
        }
        while k < n
            invariant
                n == self.layers@.len(),
                k <= n,
                layers_lookup(self.layers@, name@) == layers_lookup(
                    self.layers@.skip(k as int),
                    name@,
                ),
            decreases n - k,
        {
            proof {
                let sub = self.layers@.skip(k as int);
                assert(sub[0] == self.layers@[k as int]);
                assert(sub.drop_first() =~= self.layers@.skip(k + 1));
            }
            let found = find_in_layer(&self.layers[k], name);
            if found.is_some() {
                return found;
            }
            k = k + 1;
        }
        proof {
            assert(self.layers@.skip(n as int) =~= Seq::<VariableLayer>::empty());
        }
        None
    }

    /// Look up a variable including secret values, for sending.
    fn lookup_secret(&self, name: &str) -> (r: Option<String>)
        ensures
            match r {
                Some(v) => self.lookup_spec(name@) == Some(v@),
                None => self.lookup_spec(name@) is None,
            },
    {
        self.lookup(name)
    }

    /// Is this name in the secret set?
    fn is_secret_key(&self, name: &str) -> (r: bool)
        ensures
            r == self.is_secret_spec(name@),
    {
        let n = self.secret_keys.len();
        let mut k: usize = 0;
        while k < n
            invariant
                n == self.secret_keys@.len(),
                k <= n,
                forall|j: int| 0 <= j < k ==> self.secret_keys@[j]@ != name@,
            decreases n - k,
        {
            if str_eq_str(self.secret_keys[k].as_str(), name) {
                assert(self.is_secret_spec(name@));
                return true;
            }
            k = k + 1;
        }
        false
    }
}

proof fn lemma_prev_end_le(s: Seq<char>, spans: Seq<(int, int, Seq<char>)>, k: int)
    requires
        spans_wf_from(s, 0, spans),
        0 <= k < spans.len(),
    ensures
        0 <= prev_end(spans, k) <= spans[k].0,
        spans[k].0 + 4 <= spans[k].1 <= s.len(),
    decreases k,
{
    if k > 0 {
        lemma_prev_end_le(s, spans, k - 1);
    }
}

proof fn lemma_out_upto_step_len(
    rv: &EnvResolver,
    s: Seq<char>,
    spans: Seq<(int, int, Seq<char>)>,
    j: int,
    fs: bool,
)
    requires
        spans_wf_from(s, 0, spans),
        0 <= j < spans.len(),
    ensures
        rv.out_upto(s, spans, j + 1, fs).len() == rv.out_upto(s, spans, j, fs).len() + (
        spans[j].0 - prev_end(spans, j)) + rv.repl(s, spans[j], fs).len(),
{
    lemma_prev_end_le(s, spans, j);
}

proof fn lemma_out_upto_len_mono(
    rv: &EnvResolver,
    s: Seq<char>,
    spans: Seq<(int, int, Seq<char>)>,
    k1: int,
    k2: int,
    fs: bool,
)
    requires
        spans_wf_from(s, 0, spans),
        0 <= k1 <= k2 <= spans.len(),
    ensures
        rv.out_upto(s, spans, k1, fs).len() <= rv.out_upto(s, spans, k2, fs).len(),
    decreases k2,
{
    if k1 < k2 {
        lemma_out_upto_len_mono(rv, s, spans, k1, k2 - 1, fs);
        lemma_out_upto_step_len(rv, s, spans, k2 - 1, fs);
    }
}

impl EnvResolver {
    /// Resolve a string for display. Secrets are masked; unresolved
    /// placeholders keep their literal text. The returned spans give each
    /// placeholder's position in the *output* string, its name, and how it
    /// was resolved.
    pub fn resolve(&self, input: &str) -> (r: ResolvedString)
        ensures
            r.value@ == self.out_value(input@, false),
            r.spans@.len() == scan_vars(input@, 0).len(),
            forall|k: int|
                0 <= k < r.spans@.len() ==> self.span_ok(input@, k, #[trigger] r.spans@[k]),
            forall|k: int|
                0 <= k < r.spans@.len() ==> r.value@.subrange(
                    (#[trigger] r.spans@[k]).start as int,
                    r.spans@[k].end as int,
                ) == self.repl(input@, scan_vars(input@, 0)[k], false),
    {
        let ghost s = input@;
        let ghost spans = scan_vars(s, 0);
        proof {
            lemma_scan_vars_wf(s, 0);
        }
        let vars = parse_vars(input);
        let n = vars.len();
        let mut output = String::new();
        let mut out_spans: Vec<VarSpan> = Vec::new();
        let mut last: usize = 0;
        let mut k: usize = 0;
        while k < n
            invariant
                s == input@,
                spans == scan_vars(s, 0),
                spans_view(vars@) == spans,
                n == vars@.len(),
                spans_wf_from(s, 0, spans),
                k <= n,
                last as int == prev_end(spans, k as int),
                last <= s.len(),
                output@ == self.out_upto(s, spans, k as int, false),
                out_spans@.len() == k,
                forall|j: int| 0 <= j < k ==> self.span_ok(s, j, #[trigger] out_spans@[j]),
            decreases n - k,
        {
            let entry = &vars[k];
            let st = entry.0;
            let en = entry.1;
            proof {
                assert(spans[k as int] == (st as int, en as int, entry.2@));
                lemma_prev_end_le(s, spans, k as int);
            }
            let gap = input.substring_char(last, st);
            output.append(gap);
            let seg_start = output.as_str().unicode_len();
            let looked = self.lookup(entry.2.as_str());
            let status: VarStatus = match looked {
                Option::Some(v) => {
                    if self.is_secret_key(entry.2.as_str()) {
                        let m = mask_string();
                        output.append(m.as_str());
                        VarStatus::Secret
                    } else {
                        output.append(v.as_str());
                        VarStatus::Resolved(v)
                    }
                },
                Option::None => {
                    let lit = input.substring_char(st, en);
                    output.append(lit);
                    VarStatus::Unresolved
                },
            };
            let seg_end = output.as_str().unicode_len();
            proof {
                assert(output@ =~= self.out_upto(s, spans, k + 1, false));
            }
            let sp_out = VarSpan {
                start: seg_start,
                end: seg_end,
                variable_name: entry.2.clone(),
                status,
            };
            proof {
                assert(self.span_ok(s, k as int, sp_out));
            }
            let ghost old_spans = out_spans@;
            out_spans.push(sp_out);
            proof {
                assert forall|j: int| 0 <= j < k + 1 implies self.span_ok(
                    s,
                    j,
                    #[trigger] out_spans@[j],
                ) by {
                    if j < k {
                        assert(out_spans@[j] == old_spans[j]);
                    }
                }
            }
            last = en;
            k = k + 1;
        }
        let len = input.unicode_len();
        proof {
            if n > 0 {
                lemma_prev_end_le(s, spans, n - 1);
            }
        }
        let tail = input.substring_char(last, len);
        output.append(tail);
        proof {
            assert(output@ =~= self.out_value(s, false));
            assert forall|j: int| 0 <= j < out_spans@.len() implies output@.subrange(
                (#[trigger] out_spans@[j]).start as int,
                out_spans@[j].end as int,
            ) == self.repl(s, spans[j], false) by {
                lemma_out_value_segment(self, s, j, false);
            }
        }
        ResolvedString { value: output, spans: out_spans }
    }

    /// Resolve a string for sending. Secrets substitute their real value;
    /// unresolved placeholders are left as literal text.
    pub fn resolve_for_send(&self, input: &str) -> (r: String)
        ensures
            r@ == self.out_value(input@, true),
    {
        let ghost s = input@;
        let ghost spans = scan_vars(s, 0);
        proof {
            lemma_scan_vars_wf(s, 0);
        }
        let vars = parse_vars(input);
        let n = vars.len();
        let mut output = String::new();
        let mut last: usize = 0;
        let mut k: usize = 0;
        while k < n
            invariant
                s == input@,
                spans == scan_vars(s, 0),
                spans_view(vars@) == spans,
                n == vars@.len(),
                spans_wf_from(s, 0, spans),
                k <= n,
                last as int == prev_end(spans, k as int),
                last <= s.len(),
                output@ == self.out_upto(s, spans, k as int, true),
            decreases n - k,
        {
            let entry = &vars[k];
            let st = entry.0;
            let en = entry.1;
            proof {
                assert(spans[k as int] == (st as int, en as int, entry.2@));
                lemma_prev_end_le(s, spans, k as int);
            }
            let gap = input.substring_char(last, st);
            output.append(gap);
            match self.lookup_secret(entry.2.as_str()) {
                Option::Some(v) => {
                    output.append(v.as_str());
                },
                Option::None => {
                    let lit = input.substring_char(st, en);
                    output.append(lit);
                },
            }
            proof {
                assert(output@ =~= self.out_upto(s, spans, k + 1, true));
            }
            last = en;
            k = k + 1;
        }
        let len = input.unicode_len();
        proof {
            if n > 0 {
                lemma_prev_end_le(s, spans, n - 1);
            }
        }
        let tail = input.substring_char(last, len);
        output.append(tail);
        proof {
            assert(output@ =~= self.out_value(s, true));
        }
        output
    }
}

/// Layer priority: a name bound in the first layer resolves to that layer's
/// value, whatever any later layer binds it to.
pub proof fn lemma_layer_priority(rv: &EnvResolver, name: Seq<char>)
    requires
        rv.layers@.len() > 0,
        layer_lookup(rv.layers@[0].entries@, name) is Some,
    ensures
        rv.lookup_spec(name) == layer_lookup(rv.layers@[0].entries@, name),
{
}

proof fn lemma_out_upto_prefix(
    rv: &EnvResolver,
    s: Seq<char>,
    spans: Seq<(int, int, Seq<char>)>,
    k1: int,
    k2: int,
    fs: bool,
)
    requires
        spans_wf_from(s, 0, spans),
        0 <= k1 <= k2 <= spans.len(),
    ensures
        rv.out_upto(s, spans, k2, fs).subrange(
            0,
            rv.out_upto(s, spans, k1, fs).len() as int,
        ) == rv.out_upto(s, spans, k1, fs),
    decreases k2,
{
    if k1 == k2 {
        assert(rv.out_upto(s, spans, k1, fs).subrange(
            0,
            rv.out_upto(s, spans, k1, fs).len() as int,
        ) =~= rv.out_upto(s, spans, k1, fs));
    } else {
        lemma_out_upto_prefix(rv, s, spans, k1, k2 - 1, fs);
        lemma_out_upto_len_mono(rv, s, spans, k1, k2 - 1, fs);
        lemma_out_upto_step_len(rv, s, spans, k2 - 1, fs);
        assert(rv.out_upto(s, spans, k2, fs).subrange(
            0,
            rv.out_upto(s, spans, k1, fs).len() as int,
        ) =~= rv.out_upto(s, spans, k2 - 1, fs).subrange(
            0,
            rv.out_upto(s, spans, k1, fs).len() as int,
        ));
    }
}

/// In the output for input `s`, the replacement of span `k` occupies exactly
/// the positions from `seg_start` for its own length.
pub proof fn lemma_out_value_segment(rv: &EnvResolver, s: Seq<char>, k: int, fs: bool)
    requires
        0 <= k < scan_vars(s, 0).len(),
    ensures
        ({
            let spans = scan_vars(s, 0);
            let ss = rv.seg_start(s, k, fs);
            let repl = rv.repl(s, spans[k], fs);
            rv.out_value(s, fs).subrange(ss, ss + repl.len() as int) == repl
        }),
{
    lemma_scan_vars_wf(s, 0);
    let spans = scan_vars(s, 0);
    let n = spans.len() as int;
    let ss = rv.seg_start(s, k, fs);
    let repl = rv.repl(s, spans[k], fs);
    lemma_prev_end_le(s, spans, k);
    lemma_out_upto_step_len(rv, s, spans, k, fs);
    lemma_out_upto_len_mono(rv, s, spans, k + 1, n, fs);
    lemma_out_upto_prefix(rv, s, spans, k + 1, n, fs);
    let up1 = rv.out_upto(s, spans, k + 1, fs);
    let upn = rv.out_upto(s, spans, n, fs);
    assert(up1.subrange(ss, ss + repl.len() as int) =~= repl);
    assert forall|i: int| 0 <= i < up1.len() implies upn[i] == up1[i] by {
        assert(upn.subrange(0, up1.len() as int)[i] == upn[i]);
    }
    assert(rv.out_value(s, fs).subrange(ss, ss + repl.len() as int) =~= repl);
}

/// A secret variable is masked in the display output but carries its real
/// value in the send output, each at the span's own position there.
pub proof fn lemma_secret_masked_display_real_send(rv: &EnvResolver, s: Seq<char>, k: int)
    requires
        0 <= k < scan_vars(s, 0).len(),
        rv.lookup_spec(scan_vars(s, 0)[k].2) is Some,
        rv.is_secret_spec(scan_vars(s, 0)[k].2),
    ensures
        ({
            let dss = rv.seg_start(s, k, false);
            rv.out_value(s, false).subrange(dss, dss + mask_seq().len() as int) == mask_seq()
        }),
        ({
            let v = rv.lookup_spec(scan_vars(s, 0)[k].2)->0;
            let sss = rv.seg_start(s, k, true);
            rv.out_value(s, true).subrange(sss, sss + v.len() as int) == v
        }),
{
    lemma_out_value_segment(rv, s, k, false);
    lemma_out_value_segment(rv, s, k, true);
}

} // verus!
