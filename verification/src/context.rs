//! Token budgets and the context bundle that goes into a prompt.
use vstd::prelude::*;
use crate::text::concat2;
use crate::text::push_str;
use crate::text::decimal_string;
use crate::text::decimal;
use crate::text::to_owned_string;
use crate::retrieval::RetrievalTrace;
use crate::retrieval::TraceEntry;
use crate::retrieval::copy_entry;
use crate::retrieval::entry_views;
use vstd::utf8::encode_utf8;
use vstd::string::StringSliceAdditionalSpecFns;

verus! {

/// How many tokens a prompt may hold and how many it holds so far.
#[derive(Debug, Clone)]
pub struct ContextBudget {
    pub max_tokens: usize,
    pub used_tokens: usize,
}

/// The token estimate of a text of `bytes` UTF-8 bytes: a quarter, plus one.
pub open spec fn token_estimate(bytes: nat) -> nat {
    bytes / 4 + 1
}

/// The tokens still free in a budget; zero when it is spent or overspent.
pub open spec fn remaining_of(b: ContextBudget) -> nat {
    if b.used_tokens <= b.max_tokens {
        (b.max_tokens - b.used_tokens) as nat
    } else {
        0
    }
}

/// Taking `t` tokens from a budget: they are taken when they fit, else the
/// budget stays as it was; and whether they were taken.
pub open spec fn budget_after(b: ContextBudget, t: nat) -> (ContextBudget, bool) {
    if b.used_tokens + t <= b.max_tokens {
        (ContextBudget { used_tokens: (b.used_tokens + t) as usize, ..b }, true)
    } else {
        (b, false)
    }
}

impl ContextBudget {
    /// An empty budget of `max_tokens`.
    pub fn new(max_tokens: usize) -> (r: Self)
        ensures
            r.max_tokens == max_tokens,
            r.used_tokens == 0,
    {
        ContextBudget { max_tokens, used_tokens: 0 }
    }

    /// The tokens still free; zero when the budget is spent or overspent.
    pub fn remaining(&self) -> (r: usize)
        ensures
            r == if self.used_tokens <= self.max_tokens { self.max_tokens - self.used_tokens } else { 0 },
            r == remaining_of(*self),
    {
        self.max_tokens.saturating_sub(self.used_tokens)
    }

    /// Takes `tokens` from the budget when they fit, and says whether they did.
    pub fn try_add(&mut self, tokens: usize) -> (r: bool)
        ensures
            r == (old(self).used_tokens + tokens <= old(self).max_tokens),
            (*final(self), r) == budget_after(*old(self), tokens as nat),
            final(self).max_tokens == old(self).max_tokens,
            final(self).used_tokens == if r { old(self).used_tokens + tokens } else { old(self).used_tokens as int },
    {
        if self.used_tokens <= self.max_tokens && tokens <= self.max_tokens - self.used_tokens {
            self.used_tokens = self.used_tokens + tokens;
            true
        } else {
            false
        }
    }

    /// The token estimate of a text: its UTF-8 length divided by four, plus one.
    pub fn estimate_tokens(text: &str) -> (r: usize)
        ensures
            r == token_estimate(text.len() as nat),
    {
        text.len() / 4 + 1
    }
}

/// A labelled piece of context with its token estimate.
#[derive(Debug, Clone)]
pub struct ContextItem {
    pub label: String,
    pub content: String,
    pub tokens: usize,
}

/// The context gathered for one query, with the trace it came from.
#[derive(Debug, Default)]
pub struct ContextBundle {
    pub items: Vec<ContextItem>,
    pub trace: RetrievalTrace,
}

/// The sum of the items' token counts.
pub open spec fn tokens_sum(items: Seq<ContextItem>) -> nat
    decreases items.len(),
{
    if items.len() == 0 {
        0
    } else {
        tokens_sum(items.drop_last()) + items.last().tokens as nat
    }
}

/// One item as it appears in a prompt: its label in brackets, a newline, its content.
pub open spec fn item_text(i: ContextItem) -> Seq<char> {
    "["@ + i.label@ + "]\n"@ + i.content@
}

/// The items' texts joined by blank lines.
pub open spec fn joined_items(items: Seq<ContextItem>) -> Seq<char>
    decreases items.len(),
{
    if items.len() == 0 {
        Seq::empty()
    } else if items.len() == 1 {
        item_text(items[0])
    } else {
        joined_items(items.drop_last()) + "\n\n"@ + item_text(items.last())
    }
}

impl ContextBundle {
    /// The tokens of all items together.
    pub fn total_tokens(&self) -> (r: usize)
        requires
            tokens_sum(self.items@) <= usize::MAX,
        ensures
            r == tokens_sum(self.items@),
    {
        let mut total: usize = 0;
        let mut i: usize = 0;
        while i < self.items.len()
            invariant
                0 <= i <= self.items.len(),
                tokens_sum(self.items@) <= usize::MAX,
                total == tokens_sum(self.items@.take(i as int)),
            decreases self.items.len() - i,
        {
            assert(self.items@.take(i + 1).drop_last() =~= self.items@.take(i as int));
            proof {
                lemma_tokens_sum_prefix(self.items@, i as int + 1);
            }
            total = total + self.items[i].tokens;
            i = i + 1;
        }
        assert(self.items@.take(self.items@.len() as int) =~= self.items@);
        total
    }

    /// The items as prompt text: `[label]`, newline, content, items separated by a blank line.
    pub fn format_context(&self) -> (r: String)
        ensures
            r@ == joined_items(self.items@),
    {
        let mut out = String::new();
        let mut i: usize = 0;
        while i < self.items.len()
            invariant
                0 <= i <= self.items.len(),
                out@ == joined_items(self.items@.take(i as int)),
            decreases self.items.len() - i,
        {
            assert(self.items@.take(i + 1).drop_last() =~= self.items@.take(i as int));
            if i > 0 {
                push_str(&mut out, "\n\n");
            } else {
                assert(self.items@.take(1) =~= seq![self.items@[0]]);
            }
            push_str(&mut out, "[");
            push_str(&mut out, self.items[i].label.as_str());
            push_str(&mut out, "]\n");
            push_str(&mut out, self.items[i].content.as_str());
            proof {
                let t = self.items@.take(i + 1);
                assert(t.last() == self.items@[i as int]);
            }
            i = i + 1;
        }
        assert(self.items@.take(self.items@.len() as int) =~= self.items@);
        out
    }
}

/// A prefix's token sum is at most the whole sum.
pub proof fn lemma_tokens_sum_prefix(items: Seq<ContextItem>, n: int)
    requires
        0 <= n <= items.len(),
    ensures
        tokens_sum(items.take(n)) <= tokens_sum(items),
    decreases items.len() - n,
{
    if n < items.len() {
        lemma_tokens_sum_prefix(items, n + 1);
        assert(items.take(n + 1).drop_last() =~= items.take(n));
    } else {
        assert(items.take(n) =~= items);
    }
}

/// Conversation history and the budget of the next prompt.
pub struct ContextEngine {
    budget: ContextBudget,
    history: Vec<(String, String)>,
}

/// The label under which a hit enters the context.
pub open spec fn entry_label(e: TraceEntry) -> Seq<char> {
    "symbol: "@ + e.name@ + " ("@ + e.file@ + ":"@ + decimal(e.line as nat) + ")"@
}

/// The text with which a hit enters the context.
pub open spec fn entry_content(e: TraceEntry) -> Seq<char> {
    e.name@ + " at "@ + e.file@ + ":"@ + decimal(e.line as nat)
}

/// The token estimate of a hit's context text.
pub open spec fn entry_cost(e: TraceEntry) -> nat {
    token_estimate((encode_utf8(entry_content(e)).len() as usize) as nat)
}

/// Which hits enter the context: walking the hits in order, each whose token
/// estimate still fits the budget spends it and enters; the others are left
/// out. `used` is what is spent before the walk.
pub open spec fn admitted(entries: Seq<TraceEntry>, max: nat, used: nat) -> Seq<TraceEntry>
    decreases entries.len(),
{
    if entries.len() == 0 {
        Seq::empty()
    } else {
        let rest = entries.drop_first();
        if used + entry_cost(entries[0]) <= max {
            seq![entries[0]] + admitted(rest, max, used + entry_cost(entries[0]))
        } else {
            admitted(rest, max, used)
        }
    }
}

/// What the walk of `admitted` has spent at its end.
pub open spec fn spent(entries: Seq<TraceEntry>, max: nat, used: nat) -> nat
    decreases entries.len(),
{
    if entries.len() == 0 {
        used
    } else {
        let rest = entries.drop_first();
        if used + entry_cost(entries[0]) <= max {
            spent(rest, max, used + entry_cost(entries[0]))
        } else {
            spent(rest, max, used)
        }
    }
}

/// The context item that a hit becomes.
pub open spec fn item_for(e: TraceEntry) -> (Seq<char>, Seq<char>, nat) {
    (entry_label(e), entry_content(e), entry_cost(e))
}

/// The items as (label, content, tokens).
pub open spec fn item_triples(items: Seq<ContextItem>) -> Seq<(Seq<char>, Seq<char>, nat)> {
    items.map_values(|i: ContextItem| (i.label@, i.content@, i.tokens as nat))
}

/// The label text of a hit.
pub fn entry_label_string(e: &TraceEntry) -> (r: String)
    ensures
        r@ == entry_label(*e),
{
    let line = decimal_string(e.line as u64);
    let mut s = concat2("symbol: ", e.name.as_str());
    push_str(&mut s, " (");
    push_str(&mut s, e.file.as_str());
    push_str(&mut s, ":");
    push_str(&mut s, line.as_str());
    push_str(&mut s, ")");
    s
}

/// The content text of a hit.
pub fn entry_content_string(e: &TraceEntry) -> (r: String)
    ensures
        r@ == entry_content(*e),
{
    let line = decimal_string(e.line as u64);
    let mut s = concat2(e.name.as_str(), " at ");
    push_str(&mut s, e.file.as_str());
    push_str(&mut s, ":");
    push_str(&mut s, line.as_str());
    s
}

impl ContextEngine {
    /// An engine with an empty history and an unspent budget of `max_tokens`.
    pub fn new(max_tokens: usize) -> (r: Self)
        ensures
            r.budget_view().max_tokens == max_tokens,
            r.budget_view().used_tokens == 0,
            r.history_view().len() == 0,
    {
        ContextEngine { budget: ContextBudget::new(max_tokens), history: Vec::new() }
    }

    /// The history as (role, content) texts, oldest first.
    pub closed spec fn history_view(&self) -> Seq<(Seq<char>, Seq<char>)> {
        self.history@.map_values(|p: (String, String)| (p.0@, p.1@))
    }

    /// The budget, as a value.
    pub closed spec fn budget_view(&self) -> ContextBudget {
        self.budget
    }

    /// Appends a message to the history.
    pub fn add_history(&mut self, role: &str, content: &str)
        ensures
            final(self).history_view() == old(self).history_view().push((role@, content@)),
            final(self).budget_view() == old(self).budget_view(),
    {
        let ghost before = self.history@;
        self.history.push((to_owned_string(role), to_owned_string(content)));
        assert(self.history@.map_values(|p: (String, String)| (p.0@, p.1@)) =~= before.map_values(
            |p: (String, String)| (p.0@, p.1@),
        ).push((role@, content@)));
    }

    /// The history, oldest first.
    pub fn history(&self) -> (r: &[(String, String)])
        ensures
            r@.map_values(|p: (String, String)| (p.0@, p.1@)) == self.history_view(),
    {
        self.history.as_slice()
    }

    /// Marks the whole budget unspent.
    pub fn reset_budget(&mut self)
        ensures
            final(self).budget_view().used_tokens == 0,
            final(self).budget_view().max_tokens == old(self).budget_view().max_tokens,
            final(self).history_view() == old(self).history_view(),
    {
        self.budget.used_tokens = 0;
    }

    /// The current budget.
    pub fn budget(&self) -> (r: &ContextBudget)
        ensures
            *r == self.budget_view(),
    {
        &self.budget
    }

    /// Builds the context for a query from the trace that retrieval found for
    /// it: the budget is reset, then each hit that still fits enters as an
    /// item labelled `symbol: name (file:line)` with content `name at file:line`.
    pub fn build_for_query(&mut self, trace: RetrievalTrace) -> (r: ContextBundle)
        ensures
            item_triples(r.items@) == admitted(trace.entries@, old(self).budget_view().max_tokens as nat, 0).map_values(
                |e: TraceEntry| item_for(e),
            ),
            entry_views(r.trace.entries@) == entry_views(trace.entries@),
            final(self).budget_view().max_tokens == old(self).budget_view().max_tokens,
            final(self).budget_view().used_tokens == spent(trace.entries@, old(self).budget_view().max_tokens as nat, 0),
            final(self).history_view() == old(self).history_view(),
    {
        self.budget.used_tokens = 0;
        let ghost max = self.budget.max_tokens as nat;
        let ghost es = trace.entries@;
        let mut items: Vec<ContextItem> = Vec::new();
        let mut copies: Vec<TraceEntry> = Vec::new();
        let mut i: usize = 0;
        assert(es.skip(0) =~= es);
        while i < trace.entries.len()
            invariant
                0 <= i <= trace.entries.len(),
                es == trace.entries@,
                max == self.budget.max_tokens,
                self.history_view() == old(self).history_view(),
                max == old(self).budget_view().max_tokens,
                entry_views(copies@) == entry_views(es.take(i as int)),
                item_triples(items@) + admitted(es.skip(i as int), max, self.budget.used_tokens as nat).map_values(
                    |e: TraceEntry| item_for(e),
                ) == admitted(es, max, 0).map_values(|e: TraceEntry| item_for(e)),
                spent(es.skip(i as int), max, self.budget.used_tokens as nat) == spent(es, max, 0),
            decreases trace.entries.len() - i,
        {
            let e = &trace.entries[i];
            let label = entry_label_string(e);
            let content = entry_content_string(e);
            let tokens = ContextBudget::estimate_tokens(content.as_str());
            let ghost used = self.budget.used_tokens as nat;
            let ghost tail = es.skip(i as int);
            assert(tail[0] == es[i as int]);
            assert(tail.drop_first() =~= es.skip(i + 1));
            assert(tokens == entry_cost(es[i as int]));
            let ghost before = item_triples(items@);
            if self.budget.try_add(tokens) {
                let item = ContextItem { label, content, tokens };
                items.push(item);
                proof {
                    let rest = admitted(es.skip(i + 1), max, used + entry_cost(es[i as int])).map_values(|e: TraceEntry| item_for(e));
                    assert(item_triples(items@) =~= before.push(item_for(es[i as int])));
                    assert((seq![es[i as int]] + admitted(es.skip(i + 1), max, used + entry_cost(es[i as int]))).map_values(
                        |e: TraceEntry| item_for(e),
                    ) =~= seq![item_for(es[i as int])] + rest);
                    assert(before + (seq![item_for(es[i as int])] + rest) =~= before.push(item_for(es[i as int])) + rest);
                }
            }
            let c = copy_entry(e);
            let ghost old_copies = copies@;
            copies.push(c);
            assert(entry_views(copies@) =~= entry_views(old_copies).push(c@));
            assert(es.take(i + 1) =~= es.take(i as int).push(es[i as int]));
            assert(entry_views(es.take(i + 1)) =~= entry_views(es.take(i as int)).push(es[i as int]@));
            i = i + 1;
        }
        assert(es.take(es.len() as int) =~= es);
        assert(es.skip(es.len() as int) =~= Seq::<TraceEntry>::empty());
        assert(admitted(Seq::<TraceEntry>::empty(), max, self.budget.used_tokens as nat).map_values(|e: TraceEntry| item_for(e)) =~= Seq::empty());
        assert(item_triples(items@) + Seq::empty() =~= item_triples(items@));
        ContextBundle { items, trace: RetrievalTrace { entries: copies } }
    }
}

} // verus!
