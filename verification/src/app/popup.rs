//! The query completion popup: recomputing what it offers, asking for the vocabulary it needs, and
//! accepting a suggestion.

use vstd::prelude::*;

use crate::app::{App, AppView, VocabularyView};
use crate::completion;
use crate::completion::{
    CandidateKind, Completion, CompletionContext, CompletionView, ContextView, LogCompletionRequest,
    LogRequestView,
};
use crate::geometry;
use crate::model;
use crate::model::{Mode, NodeView, Screen};
use crate::text;

verus! {

impl AppView {
    /// What the popup offers for the token before the caret: nothing outside the editor, before
    /// anything is typed where the vocabulary is large, or where the only match is the token itself.
    pub open spec fn offered(self) -> Option<CompletionView> {
        let context = completion::context_of(self.before_caret());
        let token = completion::token_of(self.before_caret());
        let waits = token.len() == 0 && (match context {
            ContextView::Suppressed => true,
            ContextView::Expr => self.screen() != Screen::Logs,
            _ => false,
        });
        let candidates = completion::at_most(
            completion::all_candidates(
                self.screen(),
                self.words.metric_names,
                self.catalog.metric_tree,
                match self.words.log_labels {
                    Some(names) => names,
                    None => Seq::empty(),
                },
                self.words.log_label_values,
                context,
                token,
            ),
            completion::MAX_CANDIDATES as int,
        );
        let redundant = candidates.len() == 1 && candidates[0].text == token;
        if self.mode != Mode::Editing || waits || candidates.len() == 0 || redundant {
            None
        } else {
            Some(
                CompletionView {
                    candidates,
                    selected: match self.words.completion {
                        Some(c) => geometry::min(c.selected as int, candidates.len() - 1) as usize,
                        None => 0,
                    },
                },
            )
        }
    }

    /// The state with another popup.
    pub open spec fn with_popup(self, popup: Option<CompletionView>) -> AppView {
        AppView { words: VocabularyView { completion: popup, ..self.words }, ..self }
    }

    /// The state with the popup recomputed.
    pub open spec fn refresh_popup(self) -> AppView {
        self.with_popup(self.offered())
    }

    /// The metric of the tree whose labels the caret's position wants.
    pub open spec fn label_metric(self) -> Option<int> {
        if self.mode != Mode::Editing || self.screen() != Screen::Metrics {
            None
        } else {
            let metric = match completion::context_of(self.before_caret()) {
                ContextView::LabelName { metric } => metric,
                ContextView::LabelValue { metric, .. } => metric,
                _ => None,
            };
            match metric {
                Some(name) => completion::node_named(self.catalog.metric_tree, name, 0),
                None => None,
            }
        }
    }

    /// The metric whose dimensions the caret's position asks for: its name and its kind.
    pub open spec fn dims_wanted(self) -> Option<(Seq<char>, Seq<char>)> {
        match self.label_metric() {
            Some(mi) => {
                let node = self.catalog.metric_tree[mi];
                if node.dims is None && !node.loading { Some((node.name, node.kind)) } else { None }
            },
            None => None,
        }
    }

    /// The state once those dimensions have been asked for.
    pub open spec fn dims_asked(self) -> AppView {
        match (self.label_metric(), self.dims_wanted()) {
            (Some(mi), Some(_)) => {
                let tree = self.catalog.metric_tree;
                self.with_tree(tree.update(mi, NodeView { loading: true, ..tree[mi] }))
            },
            _ => self,
        }
    }

    /// The log vocabulary that the caret's position asks for.
    pub open spec fn log_words_wanted(self) -> Option<LogRequestView> {
        if self.mode != Mode::Editing || self.screen() != Screen::Logs {
            None
        } else {
            match completion::context_of(self.before_caret()) {
                ContextView::LabelName { .. } => if self.words.log_labels is None && !self.words.log_labels_loading {
                    Some(LogRequestView::Labels)
                } else {
                    None
                },
                ContextView::LabelValue { label, .. } => if completion::kept(self.words.log_label_values, label, 0) is None
                    && !self.words.log_label_values_loading.contains(label) {
                    Some(LogRequestView::Values(label))
                } else {
                    None
                },
                _ => None,
            }
        }
    }

    /// The state once that vocabulary has been asked for.
    pub open spec fn log_words_asked(self) -> AppView {
        match self.log_words_wanted() {
            Some(LogRequestView::Labels) => AppView {
                words: VocabularyView { log_labels_loading: true, ..self.words },
                ..self
            },
            Some(LogRequestView::Values(label)) => AppView {
                words: VocabularyView {
                    log_label_values_loading: self.words.log_label_values_loading.push(label),
                    ..self.words
                },
                ..self
            },
            None => self,
        }
    }

    /// The state once the highlighted suggestion has replaced the token before the caret.
    pub open spec fn accept(self) -> AppView {
        match self.words.completion {
            Some(c) => {
                let closed = self.with_popup(None);
                if c.selected < c.candidates.len() {
                    let candidate = c.candidates[c.selected as int];
                    let before = self.before_caret();
                    let token = completion::token_of(before);
                    let head = before.take(before.len() - token.len()) + candidate.text + (
                    if candidate.kind == CandidateKind::Function { "("@ } else { Seq::empty() });
                    let query = head + self.active_query().skip(self.caret());
                    (AppView { query_cursor: text::byte_len(head) as usize, ..closed.with_query(query) }).refresh_popup()
                } else {
                    closed
                }
            },
            None => self,
        }
    }
}

impl App {
    /// Recomputes the completion popup for the token before the caret. It closes outside the
    /// editor, where the token is empty in a position with a large vocabulary, and where the only
    /// match is the token itself.
    pub fn refresh_completion(&mut self)
        ensures
            final(self)@ == old(self)@.refresh_popup(),
    {
        if self.mode != Mode::Editing {
            self.words.completion = None;
            return;
        }
        let before = text::owned(self.query_before_caret());
        let (context, token) = completion::completion_context(&before);
        let waits = token.is_empty() && match &context {
            CompletionContext::Suppressed => true,
            CompletionContext::Expr => self.screen() != Screen::Logs,
            _ => false,
        };
        if waits {
            self.words.completion = None;
            return;
        }
        let none: Vec<String> = Vec::new();
        assert(text::strs(none@) =~= Seq::empty());
        let labels: &Vec<String> = match &self.words.log_labels {
            Some(names) => names,
            None => &none,
        };
        let candidates = completion::completion_candidates(
            self.screen(),
            &self.words.metric_names,
            &self.catalog.metric_tree,
            labels,
            &self.words.log_label_values,
            &context,
            token,
        );
        let n: usize = candidates.len();
        let ghost offered = completion::candidates_view(candidates@);
        assert(n == 1 ==> offered[0] == candidates@[0]@);
        if n == 0 || (n == 1 && text::same(&candidates[0].text, token)) {
            self.words.completion = None;
            return;
        }
        let selected: usize = match &self.words.completion {
            Some(c) => if c.selected < n - 1 { c.selected } else { n - 1 },
            None => 0,
        };
        self.words.completion = Some(Completion { candidates, selected });
    }

    /// Where the caret stands in a label position of a known metric whose dimensions are not
    /// discovered, marks the metric as loading and returns its name and kind, so that they can be
    /// fetched; `None` once they are in flight or loaded.
    pub fn completion_dim_request(&mut self) -> (r: Option<(String, String)>)
        ensures
            final(self)@ == old(self)@.dims_asked(),
            match r {
                Some((name, kind)) => old(self)@.dims_wanted() == Some((name@, kind@)),
                None => old(self)@.dims_wanted() is None,
            },
    {
        if self.mode != Mode::Editing || self.screen() != Screen::Metrics {
            return None;
        }
        let metric = {
            let (context, _) = completion::completion_context(self.query_before_caret());
            match context {
                CompletionContext::LabelName { metric } => metric,
                CompletionContext::LabelValue { metric, .. } => metric,
                _ => None,
            }
        };
        let name = match metric {
            Some(name) => name,
            None => {
                return None;
            },
        };
        mark_loading(&mut self.catalog.metric_tree, &name)
    }

    /// Where the caret stands in a label position on the Logs screen and the vocabulary there is
    /// not discovered, marks it as in flight and returns what to fetch; `None` once it is in flight
    /// or loaded.
    pub fn completion_log_request(&mut self) -> (r: Option<LogCompletionRequest>)
        ensures
            final(self)@ == old(self)@.log_words_asked(),
            match r {
                Some(request) => old(self)@.log_words_wanted() == Some(request@),
                None => old(self)@.log_words_wanted() is None,
            },
    {
        if self.mode != Mode::Editing || self.screen() != Screen::Logs {
            return None;
        }
        let before = text::owned(self.query_before_caret());
        let (context, _) = completion::completion_context(&before);
        match context {
            CompletionContext::LabelName { .. } => {
                if self.words.log_labels.is_none() && !self.words.log_labels_loading {
                    self.words.log_labels_loading = true;
                    Some(LogCompletionRequest::Labels)
                } else {
                    None
                }
            },
            CompletionContext::LabelValue { label, .. } => {
                let known = completion::find_kept(&self.words.log_label_values, &label).is_some();
                if !known && !completion::has_name(&self.words.log_label_values_loading, &label) {
                    let ghost loading = self.words.log_label_values_loading@;
                    self.words.log_label_values_loading.push(label.clone());
                    assert(text::strs(self.words.log_label_values_loading@) =~= text::strs(loading).push(label@));
                    Some(LogCompletionRequest::Values(label))
                } else {
                    None
                }
            },
            _ => None,
        }
    }

    /// Replaces the token before the caret with the highlighted suggestion, a function's opening
    /// bracket added, and keeps what follows the caret.
    pub fn accept_completion(&mut self)
        ensures
            final(self)@ == old(self)@.accept(),
    {
        let popup = match self.words.completion.take() {
            Some(popup) => popup,
            None => {
                return;
            },
        };
        if popup.selected >= popup.candidates.len() {
            return;
        }
        let ghost a = old(self)@;
        let candidate = &popup.candidates[popup.selected];
        assert(completion::candidates_view(popup.candidates@)[popup.selected as int] == candidate@);
        let cs = text::chars_of(self.active_query());
        let k: usize = crate::textfield::chars_before(self.active_query(), self.query_cursor);
        let keep: usize = {
            let before = self.query_before_caret();
            let (_, token) = completion::completion_context(before);
            proof {
                completion::law_the_token_ends_the_text(a.before_caret());
            }
            k - text::chars_of(token).len()
        };
        let mut out = text::string_range(&cs, 0, keep);
        assert(out@ =~= a.before_caret().take(keep as int));
        out.append(&candidate.text);
        if candidate.kind == CandidateKind::Function {
            out.append("(");
        } else {
            assert(out@ + Seq::<char>::empty() =~= out@);
        }
        let at: usize = text::bytes_of(&out);
        let ghost head = out@;
        text::push_range(&mut out, &cs, k, cs.len());
        assert(out@ =~= head + a.active_query().skip(a.caret()));
        self.query_cursor = at;
        self.replace_query(out);
        self.refresh_completion();
    }
}

fn mark_loading(tree: &mut Vec<model::MetricNode>, name: &str) -> (r: Option<(String, String)>)
    ensures
        ({
            let all = model::tree_view(old(tree)@);
            let wanted = match completion::node_named(all, name@, 0) {
                Some(mi) => if all[mi].dims is None && !all[mi].loading { Some(mi) } else { None },
                None => None,
            };
            match wanted {
                Some(mi) => r matches Some((n, k)) && n@ == all[mi].name && k@ == all[mi].kind && model::tree_view(final(tree)@)
                    == all.update(mi, NodeView { loading: true, ..all[mi] }),
                None => r is None && model::tree_view(final(tree)@) == all,
            }
        }),
{
    let ghost all = model::tree_view(tree@);
    let n: usize = tree.len();
    let mut mi: usize = 0;
    while mi < n
        invariant
            tree@ == old(tree)@,
            all == model::tree_view(tree@),
            n == tree@.len(),
            mi <= n,
            completion::node_named(all, name@, 0) == completion::node_named(all, name@, mi as int),
        decreases n - mi,
    {
        assert(all[mi as int] == tree@[mi as int]@);
        if text::same(&tree[mi].name, name) {
            if tree[mi].dims.is_none() && !tree[mi].loading {
                let node = &mut tree[mi];
                node.loading = true;
                let asked = (node.name.clone(), node.kind.clone());
                assert(model::tree_view(tree@) =~= all.update(mi as int, NodeView { loading: true, ..all[mi as int] }));
                return Some(asked);
            }
            return None;
        }
        mi += 1;
    }
    None
}

/// The metric that is found bears the name.
pub proof fn lemma_node_named(tree: Seq<NodeView>, name: Seq<char>, i: int)
    requires
        0 <= i,
    ensures
        completion::node_named(tree, name, i) matches Some(k) ==> i <= k < tree.len() && tree[k].name == name,
    decreases tree.len() - i,
{
    if i < tree.len() && tree[i].name != name {
        lemma_node_named(tree, name, i + 1);
    }
}

proof fn lemma_node_named_agree(a: Seq<NodeView>, b: Seq<NodeView>, name: Seq<char>, i: int)
    requires
        a.len() == b.len(),
        0 <= i,
        forall|j: int| 0 <= j < a.len() ==> a[j].name == b[j].name,
    ensures
        completion::node_named(a, name, i) == completion::node_named(b, name, i),
    decreases a.len() - i,
{
    if i < a.len() {
        lemma_node_named_agree(a, b, name, i + 1);
    }
}

/// Vocabulary is asked for at most once: once asked for, the same caret position asks for nothing.
pub proof fn law_vocabulary_is_asked_for_once(a: AppView)
    ensures
        a.dims_asked().dims_wanted() is None,
        a.log_words_asked().log_words_wanted() is None,
{
    if let Some(mi) = a.label_metric() {
        let metric = match completion::context_of(a.before_caret()) {
            ContextView::LabelName { metric } => metric,
            ContextView::LabelValue { metric, .. } => metric,
            _ => None,
        };
        lemma_node_named(a.catalog.metric_tree, metric->0, 0);
        let b = a.dims_asked();
        lemma_node_named_agree(a.catalog.metric_tree, b.catalog.metric_tree, metric->0, 0);
        assert(b.before_caret() == a.before_caret());
    }
    let c = a.log_words_asked();
    assert(c.before_caret() == a.before_caret());
    if let Some(LogRequestView::Values(label)) = a.log_words_wanted() {
        assert(c.words.log_label_values_loading.last() == label);
        assert(c.words.log_label_values_loading.contains(label));
    }
}

/// A popup that is open offers something, and its highlight is on one of its suggestions.
pub proof fn law_an_open_popup_offers_something(a: AppView)
    ensures
        a.offered() matches Some(c) ==> c.candidates.len() > 0 && c.selected < c.candidates.len() && c.candidates.len()
            <= completion::MAX_CANDIDATES && a.mode == Mode::Editing,
{
}

/// Accepting a suggestion keeps what stands before the token and what follows the caret.
pub proof fn law_accepting_keeps_the_rest_of_the_query(a: AppView)
    requires
        a.at.query.len() == 4,
        a.words.completion matches Some(c) && c.selected < c.candidates.len(),
    ensures
        ({
            let before = a.before_caret();
            let head = before.take(before.len() - completion::token_of(before).len());
            let tail = a.active_query().skip(a.caret());
            let candidate = (a.words.completion->0).candidates[(a.words.completion->0).selected as int];
            a.accept().active_query() == head + candidate.text + (if candidate.kind == CandidateKind::Function {
                "("@
            } else {
                Seq::empty()
            }) + tail
        }),
{
}

} // verus!
