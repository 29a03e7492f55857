//! File name to command mapping: each rule has a case-insensitive glob and
//! optional `open` (Enter), `view` (F3) and `edit` (F4) command templates.

use vstd::prelude::*;

verus! {

/// One binding rule.
#[derive(Debug, Clone)]
pub struct ExtBindRule {
    /// File name glob (case-insensitive).
    pub glob: String,
    pub open: Option<String>,
    pub view: Option<String>,
    pub edit: Option<String>,
}

/// The rules as written in the configuration, in order.
#[derive(Debug, Clone)]
pub struct ExtBindings {
    pub bind: Vec<ExtBindRule>,
}

/// Which template a lookup asks for.
#[derive(Debug, Clone, Copy, PartialEq, Eq, Structural)]
pub enum ExtAction {
    Open,
    View,
    Edit,
}

/// The rules whose glob compiled, in configuration order.
#[derive(Debug)]
pub struct CompiledExtBindings {
    rules: Vec<ExtBindRule>,
}

/// The text of an optional string.
pub open spec fn opt_view(o: Option<String>) -> Option<Seq<char>> {
    match o {
        Some(s) => Some(s@),
        None => None,
    }
}

/// A rule as plain text: glob, open, view, edit.
pub type RuleView = (Seq<char>, Option<Seq<char>>, Option<Seq<char>>, Option<Seq<char>>);

impl View for ExtBindRule {
    type V = (Seq<char>, Option<Seq<char>>, Option<Seq<char>>, Option<Seq<char>>);

    open spec fn view(&self) -> (Seq<char>, Option<Seq<char>>, Option<Seq<char>>, Option<Seq<char>>) {
        (self.glob@, opt_view(self.open), opt_view(self.view), opt_view(self.edit))
    }
}

impl View for ExtBindings {
    type V = Seq<RuleView>;

    open spec fn view(&self) -> Seq<RuleView> {
        self.bind@.map_values(|r: ExtBindRule| r@)
    }
}

impl View for CompiledExtBindings {
    type V = Seq<RuleView>;

    closed spec fn view(&self) -> Seq<RuleView> {
        self.rules@.map_values(|r: ExtBindRule| r@)
    }
}

/// Whether globset builds a glob from the pattern (case-insensitive, `*`
/// crossing `/`).
pub uninterp spec fn glob_compiles(pat: Seq<char>) -> bool;

/// Whether the glob built from `pat` (case-insensitive, `*` crossing `/`)
/// matches `name`.
pub uninterp spec fn ext_glob_match(pat: Seq<char>, name: Seq<char>) -> bool;

/// Builds the glob with `globset::GlobBuilder` (case-insensitive, literal
/// separator off) and reports whether it built. The result is named by
/// `glob_compiles`; the glob syntax itself is not stated.
#[verifier::external_body]
pub(crate) fn glob_builds(pat: &str) -> (r: bool)
    ensures
        r == glob_compiles(pat@),
{
    globset::GlobBuilder::new(pat).case_insensitive(true).literal_separator(false).build().is_ok()
}

/// Builds the glob as `glob_builds` does and runs
/// `globset::GlobMatcher::is_match` on `name`. The result is named by
/// `ext_glob_match`; the matching rules are not stated.
#[verifier::external_body]
pub(crate) fn glob_is_match(pat: &str, name: &str) -> (r: bool)
    requires
        glob_compiles(pat@),
    ensures
        r == ext_glob_match(pat@, name@),
{
    match globset::GlobBuilder::new(pat).case_insensitive(true).literal_separator(false).build() {
        Ok(g) => g.compile_matcher().is_match(name),
        Err(_) => false,
    }
}

/// The template a rule holds for an action.
pub open spec fn template_of(r: RuleView, action: ExtAction) -> Option<Seq<char>> {
    match action {
        ExtAction::Open => r.1,
        ExtAction::View => r.2,
        ExtAction::Edit => r.3,
    }
}

/// The first rule, among those that match, with a template for the action.
pub open spec fn pick_template(rules: Seq<RuleView>, matched: Seq<bool>, action: ExtAction) -> Option<Seq<char>>
    decreases rules.len(),
{
    if rules.len() == 0 || matched.len() == 0 {
        None
    } else if matched[0] && template_of(rules[0], action) is Some {
        template_of(rules[0], action)
    } else {
        pick_template(rules.skip(1), matched.skip(1), action)
    }
}

/// The glob match of every rule against a name.
pub open spec fn matches_of(rules: Seq<RuleView>, name: Seq<char>) -> Seq<bool> {
    Seq::new(rules.len(), |i: int| ext_glob_match(rules[i].0, name))
}

fn opt_str(o: &Option<String>) -> (r: Option<&str>)
    ensures
        match r {
            Some(s) => opt_view(*o) == Some(s@),
            None => opt_view(*o) is None,
        },
{
    match o {
        Some(s) => Some(s.as_str()),
        None => None,
    }
}

fn rule_template(r: &ExtBindRule, action: ExtAction) -> (t: Option<&str>)
    ensures
        match t {
            Some(s) => template_of(r@, action) == Some(s@),
            None => template_of(r@, action) is None,
        },
{
    match action {
        ExtAction::Open => opt_str(&r.open),
        ExtAction::View => opt_str(&r.view),
        ExtAction::Edit => opt_str(&r.edit),
    }
}

/// Looks up the template for `action` given, for each rule, whether its
/// glob matched the name: the first matching rule that has one wins.
pub fn lookup_matched<'a>(rules: &'a [ExtBindRule], matched: &[bool], action: ExtAction) -> (r: Option<&'a str>)
    ensures
        match r {
            Some(s) => pick_template(rules@.map_values(|x: ExtBindRule| x@), matched@, action) == Some(s@),
            None => pick_template(rules@.map_values(|x: ExtBindRule| x@), matched@, action) is None,
        },
{
    let ghost rv = rules@.map_values(|x: ExtBindRule| x@);
    let mut i: usize = 0;
    assert(rv.skip(0) == rv && matched@.skip(0) == matched@);
    while i < rules.len() && i < matched.len()
        invariant
            i <= rules@.len(),
            i <= matched@.len(),
            rv == rules@.map_values(|x: ExtBindRule| x@),
            pick_template(rv, matched@, action) == pick_template(rv.skip(i as int), matched@.skip(i as int), action),
        decreases rules@.len() - i,
    {
        assert(rv.skip(i as int)[0] == rules@[i as int]@);
        assert(matched@.skip(i as int)[0] == matched@[i as int]);
        if matched[i] {
            if let Some(t) = rule_template(&rules[i], action) {
                return Some(t);
            }
        }
        assert(rv.skip(i as int).skip(1) == rv.skip(i + 1));
        assert(matched@.skip(i as int).skip(1) == matched@.skip(i + 1));
        i = i + 1;
    }
    None
}

impl CompiledExtBindings {
    /// Keeps the rules whose glob compiles, in order.
    pub fn from_config(cfg: &ExtBindings) -> (r: Self)
        ensures
            r@ == cfg@.filter(|x: RuleView| glob_compiles(x.0)),
    {
        let ghost p = |x: RuleView| glob_compiles(x.0);
        let mut rules: Vec<ExtBindRule> = Vec::new();
        let mut i: usize = 0;
        while i < cfg.bind.len()
            invariant
                i <= cfg.bind@.len(),
                p == (|x: RuleView| glob_compiles(x.0)),
                rules@.map_values(|x: ExtBindRule| x@) == cfg@.take(i as int).filter(p),
                forall|q: int| 0 <= q < rules@.len() ==> glob_compiles(#[trigger] rules@[q].glob@),
            decreases cfg.bind@.len() - i,
        {
            let ghost before = rules@.map_values(|x: ExtBindRule| x@);
            proof {
                assert(cfg@.take(i + 1) =~= cfg@.take(i as int).push(cfg@[i as int]));
                cfg@.take(i as int).lemma_filter_push(cfg@[i as int], p);
            }
            if glob_builds(cfg.bind[i].glob.as_str()) {
                rules.push(cfg.bind[i].clone_rule());
                assert(rules@.map_values(|x: ExtBindRule| x@) =~= before.push(cfg@[i as int]));
            }
            i = i + 1;
        }
        assert(cfg@.take(cfg.bind@.len() as int) =~= cfg@);
        CompiledExtBindings { rules }
    }

    /// Look up the template for `name` and `action`: the first rule whose
    /// glob matches and that has a template for the action. `None` if no
    /// rule gives one.
    pub fn lookup(&self, name: &str, action: ExtAction) -> (r: Option<&str>)
        ensures
            match r {
                Some(s) => pick_template(self@, matches_of(self@, name@), action) == Some(s@),
                None => pick_template(self@, matches_of(self@, name@), action) is None,
            },
    {
        proof {
            use_type_invariant(self);
        }
        let mut matched: Vec<bool> = Vec::new();
        let mut i: usize = 0;
        while i < self.rules.len()
            invariant
                i <= self.rules@.len(),
                forall|q: int| 0 <= q < self.rules@.len() ==> glob_compiles(#[trigger] self.rules@[q].glob@),
                matched@ == matches_of(self@, name@).take(i as int),
            decreases self.rules@.len() - i,
        {
            let m = glob_is_match(self.rules[i].glob.as_str(), name);
            matched.push(m);
            assert(matched@ =~= matches_of(self@, name@).take(i + 1));
            i = i + 1;
        }
        assert(matched@ =~= matches_of(self@, name@));
        lookup_matched(self.rules.as_slice(), matched.as_slice(), action)
    }

    /// Every kept rule's glob compiles.
    #[verifier::type_invariant]
    spec fn all_compile(self) -> bool {
        forall|q: int| 0 <= q < self.rules@.len() ==> glob_compiles(#[trigger] self.rules@[q].glob@)
    }
}

impl ExtBindRule {
    /// A copy of the rule.
    pub fn clone_rule(&self) -> (r: Self)
        ensures
            r@ == self@,
    {
        ExtBindRule {
            glob: self.glob.clone(),
            open: clone_opt(&self.open),
            view: clone_opt(&self.view),
            edit: clone_opt(&self.edit),
        }
    }
}

fn clone_opt(o: &Option<String>) -> (r: Option<String>)
    ensures
        opt_view(r) == opt_view(*o),
{
    match o {
        Some(s) => Some(s.clone()),
        None => None,
    }
}

fn some_string(s: &str) -> (r: Option<String>)
    ensures
        opt_view(r) == Some(s@),
{
    Some(String::from_str(s))
}

/// The built-in rules: images, PDF and HTML open with `xdg-open`.
pub open spec fn default_ext_rules() -> Seq<RuleView> {
    seq![
        ("*.{png,jpg,jpeg,gif,webp,bmp,svg}"@, Some("xdg-open %f"@), None, None),
        ("*.pdf"@, Some("xdg-open %f"@), None, None),
        ("*.html"@, Some("xdg-open %f"@), None, None),
    ]
}

impl ExtBindings {
    /// Default ruleset shipped with the binary.
    pub fn defaults() -> (r: Self)
        ensures
            r@ == default_ext_rules(),
    {
        let mut bind: Vec<ExtBindRule> = Vec::new();
        bind.push(ExtBindRule {
            glob: String::from_str("*.{png,jpg,jpeg,gif,webp,bmp,svg}"),
            open: some_string("xdg-open %f"),
            view: None,
            edit: None,
        });
        bind.push(ExtBindRule {
            glob: String::from_str("*.pdf"),
            open: some_string("xdg-open %f"),
            view: None,
            edit: None,
        });
        bind.push(ExtBindRule {
            glob: String::from_str("*.html"),
            open: some_string("xdg-open %f"),
            view: None,
            edit: None,
        });
        let r = ExtBindings { bind };
        assert(r@ =~= default_ext_rules());
        r
    }
}

} // verus!

verus! {

/// The lookup gives the template of the first matching rule that has one
/// for the action, and none when no matching rule has one.
proof fn lemma_pick_first(rules: Seq<RuleView>, matched: Seq<bool>, action: ExtAction)
    ensures
        match pick_template(rules, matched, action) {
            Some(t) => exists|i: int|
                0 <= i < rules.len() && i < matched.len() && matched[i] && template_of(rules[i], action) == Some(t)
                    && forall|j: int| 0 <= j < i ==> !(matched[j] && #[trigger] template_of(rules[j], action) is Some),
            None => forall|i: int|
                0 <= i < rules.len() && i < matched.len() && matched[i] ==> #[trigger] template_of(rules[i], action) is None,
        },
    decreases rules.len(),
{
    if rules.len() > 0 && matched.len() > 0 {
        let rs = rules.skip(1);
        let ms = matched.skip(1);
        lemma_pick_first(rs, ms, action);
        if matched[0] && template_of(rules[0], action) is Some {
            assert(forall|j: int| 0 <= j < 0 ==> !(matched[j] && #[trigger] template_of(rules[j], action) is Some));
        } else {
            match pick_template(rs, ms, action) {
                Some(t) => {
                    let i = choose|i: int|
                        0 <= i < rs.len() && i < ms.len() && ms[i] && template_of(rs[i], action) == Some(t)
                            && forall|j: int| 0 <= j < i ==> !(ms[j] && #[trigger] template_of(rs[j], action) is Some);
                    assert(rules[i + 1] == rs[i] && matched[i + 1] == ms[i]);
                    assert forall|j: int| 0 <= j < i + 1 implies !(matched[j] && #[trigger] template_of(rules[j], action) is Some) by {
                        if j > 0 {
                            assert(rules[j] == rs[j - 1] && matched[j] == ms[j - 1]);
                        }
                    }
                },
                None => {
                    assert forall|i: int|
                        0 <= i < rules.len() && i < matched.len() && matched[i] implies #[trigger] template_of(rules[i], action) is None by {
                        if i > 0 {
                            assert(rules[i] == rs[i - 1] && matched[i] == ms[i - 1]);
                        }
                    }
                },
            }
        }
    }
}

/// A lookup gives the action's own template of the first matching rule
/// that has one: `open` for Enter, `view` for F3, `edit` for F4. A rule
/// never lends another action's template, and when no matching rule has
/// one the lookup gives none.
pub proof fn lemma_lookup_own_template(rules: Seq<RuleView>, matched: Seq<bool>)
    ensures
        match pick_template(rules, matched, ExtAction::Open) {
            Some(t) => exists|i: int|
                0 <= i < rules.len() && i < matched.len() && matched[i] && rules[i].1 == Some(t) && forall|j: int|
                    0 <= j < i ==> !(matched[j] && (#[trigger] rules[j]).1 is Some),
            None => forall|i: int| 0 <= i < rules.len() && i < matched.len() && matched[i] ==> (#[trigger] rules[i]).1 is None,
        },
        match pick_template(rules, matched, ExtAction::View) {
            Some(t) => exists|i: int|
                0 <= i < rules.len() && i < matched.len() && matched[i] && rules[i].2 == Some(t) && forall|j: int|
                    0 <= j < i ==> !(matched[j] && (#[trigger] rules[j]).2 is Some),
            None => forall|i: int| 0 <= i < rules.len() && i < matched.len() && matched[i] ==> (#[trigger] rules[i]).2 is None,
        },
        match pick_template(rules, matched, ExtAction::Edit) {
            Some(t) => exists|i: int|
                0 <= i < rules.len() && i < matched.len() && matched[i] && rules[i].3 == Some(t) && forall|j: int|
                    0 <= j < i ==> !(matched[j] && (#[trigger] rules[j]).3 is Some),
            None => forall|i: int| 0 <= i < rules.len() && i < matched.len() && matched[i] ==> (#[trigger] rules[i]).3 is None,
        },
{
    lemma_pick_first(rules, matched, ExtAction::Open);
    lemma_pick_first(rules, matched, ExtAction::View);
    lemma_pick_first(rules, matched, ExtAction::Edit);
    assert forall|i: int| 0 <= i < rules.len() implies (#[trigger] rules[i]).1 == template_of(rules[i], ExtAction::Open)
        && rules[i].2 == template_of(rules[i], ExtAction::View) && rules[i].3 == template_of(rules[i], ExtAction::Edit) by {}
}

} // verus!
