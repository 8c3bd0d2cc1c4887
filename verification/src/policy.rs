//! The inclusion policy: an ordered list of glob rules in which the last rule
//! that matches a path decides whether the path is included.

use crate::matcher::{
    add_error, addable, build_error, builder_add, builder_build, new_builder, override_lines,
    override_matched, override_outcome, override_root, rooted, MatchKind,
};
use crate::text::{
    begins_with, joined, lemma_trimmed_ends, starts_with_char, texts, trim, trimmed,
    without_first_char,
};
use ignore::overrides::Override;
use vstd::prelude::*;

verus! {

/// Which way a rule decides for the paths it matches.
#[derive(Clone, Copy, Debug, PartialEq, Eq)]
pub enum Polarity {
    /// Matching paths are left out.
    Exclude,
    /// Matching paths are let in, whatever an earlier rule said.
    ForceInclude,
}

/// The outcome of the policy for one path.
#[derive(Clone, Copy, Debug, PartialEq, Eq)]
pub enum Verdict {
    Included,
    Excluded,
}

/// A rule as the contracts see it: its polarity and its line in the override
/// syntax (`!glob` leaves matching paths out, a bare `glob` lets them in).
pub struct RuleView {
    pub polarity: Polarity,
    pub line: Seq<char>,
}

/// A policy as the contracts see it.
pub struct PolicyView {
    pub root: Seq<char>,
    pub rules: Seq<RuleView>,
}

/// One compiled rule. The matcher holds the rule's line and nothing else.
#[derive(Debug)]
pub struct Rule {
    polarity: Polarity,
    line: String,
    matcher: Override,
}

/// The compiled policy for one walk root.
#[derive(Debug)]
pub struct Policy {
    root: String,
    rules: Vec<Rule>,
}

/// The verdict that a matching rule of the given polarity imposes.
pub open spec fn verdict_of(polarity: Polarity) -> Verdict {
    match polarity {
        Polarity::Exclude => Verdict::Excluded,
        Polarity::ForceInclude => Verdict::Included,
    }
}

/// Whether a rule of a policy for `root` matches a path: its one-line
/// matcher, which holds the root without one leading `./`, must answer in the
/// rule's own direction.
pub open spec fn rule_hits(root: Seq<char>, rule: RuleView, path: Seq<char>, is_dir: bool) -> bool {
    let outcome = override_outcome(rooted(root), seq![rule.line], path, is_dir);
    match rule.polarity {
        Polarity::Exclude => outcome == MatchKind::Ignore,
        Polarity::ForceInclude => outcome == MatchKind::Whitelist,
    }
}

/// One step of the fold over the rule list: a rule that matches overwrites
/// the verdict with its own, a rule that does not leaves it as it is.
pub open spec fn verdict_step(before: Verdict, polarity: Polarity, hit: bool) -> Verdict {
    if hit {
        verdict_of(polarity)
    } else {
        before
    }
}

/// The fold over the rule list: start from `Included` and take one step per
/// rule, in order.
pub open spec fn verdict_after(
    root: Seq<char>,
    rules: Seq<RuleView>,
    path: Seq<char>,
    is_dir: bool,
) -> Verdict
    decreases rules.len(),
{
    if rules.len() == 0 {
        Verdict::Included
    } else {
        verdict_step(
            verdict_after(root, rules.drop_last(), path, is_dir),
            rules.last().polarity,
            rule_hits(root, rules.last(), path, is_dir),
        )
    }
}

/// The policy's verdict for a path.
pub open spec fn verdict(policy: PolicyView, path: Seq<char>, is_dir: bool) -> Verdict {
    verdict_after(policy.root, policy.rules, path, is_dir)
}

/// A path that no rule matches is included.
pub proof fn lemma_default_include(policy: PolicyView, path: Seq<char>, is_dir: bool)
    requires
        forall|i: int|
            0 <= i < policy.rules.len() ==> !rule_hits(
                policy.root,
                #[trigger] policy.rules[i],
                path,
                is_dir,
            ),
    ensures
        verdict(policy, path, is_dir) == Verdict::Included,
    decreases policy.rules.len(),
{
    if policy.rules.len() > 0 {
        let shorter = PolicyView { root: policy.root, rules: policy.rules.drop_last() };
        assert forall|i: int| 0 <= i < shorter.rules.len() implies !rule_hits(
            shorter.root,
            #[trigger] shorter.rules[i],
            path,
            is_dir,
        ) by {
            assert(shorter.rules[i] == policy.rules[i]);
        }
        lemma_default_include(shorter, path, is_dir);
    }
}

/// Last match wins: when rule `i` matches a path and no later rule does, the
/// verdict is the one that rule `i` imposes, whatever the earlier rules say.
pub proof fn lemma_last_match_wins(policy: PolicyView, path: Seq<char>, is_dir: bool, i: int)
    requires
        0 <= i < policy.rules.len(),
        rule_hits(policy.root, policy.rules[i], path, is_dir),
        forall|j: int|
            i < j < policy.rules.len() ==> !rule_hits(
                policy.root,
                #[trigger] policy.rules[j],
                path,
                is_dir,
            ),
    ensures
        verdict(policy, path, is_dir) == verdict_of(policy.rules[i].polarity),
    decreases policy.rules.len(),
{
    if i < policy.rules.len() - 1 {
        let shorter = PolicyView { root: policy.root, rules: policy.rules.drop_last() };
        assert forall|j: int| i < j < shorter.rules.len() implies !rule_hits(
            shorter.root,
            #[trigger] shorter.rules[j],
            path,
            is_dir,
        ) by {
            assert(shorter.rules[j] == policy.rules[j]);
        }
        lemma_last_match_wins(shorter, path, is_dir, i);
    }
}

impl Polarity {
    /// The verdict that a matching rule of this polarity imposes.
    pub fn verdict(self) -> (v: Verdict)
        ensures
            v == verdict_of(self),
    {
        match self {
            Polarity::Exclude => Verdict::Excluded,
            Polarity::ForceInclude => Verdict::Included,
        }
    }
}

impl Verdict {
    /// The verdict after one more rule of the given polarity, which matched
    /// the path (`hit`) or did not.
    pub fn after_rule(self, polarity: Polarity, hit: bool) -> (v: Verdict)
        ensures
            v == verdict_step(self, polarity, hit),
    {
        if hit {
            polarity.verdict()
        } else {
            self
        }
    }
}

impl View for Rule {
    type V = RuleView;

    closed spec fn view(&self) -> RuleView {
        RuleView { polarity: self.polarity, line: self.line@ }
    }
}

impl Rule {
    /// The rule's matcher was made for `root`, of which it holds all but one
    /// leading `./`, and holds exactly the rule's line.
    pub closed spec fn compiled_for(&self, root: Seq<char>) -> bool {
        &&& override_root(self.matcher) == rooted(root)
        &&& override_lines(self.matcher) == seq![self.line@]
    }

    /// Whether rules of this kind leave out or let in.
    pub fn polarity(&self) -> (p: Polarity)
        ensures
            p == self@.polarity,
    {
        self.polarity
    }

    /// The rule's line in the override syntax.
    pub fn line(&self) -> (line: &str)
        ensures
            line@ == self@.line,
    {
        self.line.as_str()
    }

    /// Whether this rule matches `path`.
    fn hits(&self, root: &str, path: &str, is_dir: bool) -> (hit: bool)
        requires
            self.compiled_for(root@),
        ensures
            hit == rule_hits(root@, self@, path@, is_dir),
    {
        let outcome = override_matched(&self.matcher, path, is_dir);
        match self.polarity {
            Polarity::Exclude => match outcome {
                MatchKind::Ignore => true,
                _ => false,
            },
            Polarity::ForceInclude => match outcome {
                MatchKind::Whitelist => true,
                _ => false,
            },
        }
    }
}

impl View for Policy {
    type V = PolicyView;

    closed spec fn view(&self) -> PolicyView {
        PolicyView { root: self.root@, rules: self.rules@.map_values(|r: Rule| r@) }
    }
}

impl Policy {
    /// Every rule's matcher was made for the policy's root and holds that
    /// rule's line alone.
    pub closed spec fn wf(&self) -> bool {
        forall|i: int|
            0 <= i < self.rules.len() ==> (#[trigger] self.rules[i]).compiled_for(self.root@)
    }

    /// A policy for `root` without any rule: it includes every path.
    pub fn new(root: &str) -> (policy: Policy)
        ensures
            policy.wf(),
            policy@.root == root@,
            policy@.rules.len() == 0,
    {
        Policy { root: root.to_owned(), rules: Vec::new() }
    }

    /// The directory that the rules match relative to.
    pub fn root(&self) -> (root: &str)
        ensures
            root@ == self@.root,
    {
        self.root.as_str()
    }

    /// The number of rules, in the order in which they are consulted.
    pub fn len(&self) -> (n: usize)
        ensures
            n == self@.rules.len(),
    {
        self.rules.len()
    }

    /// The rule at position `i`.
    pub fn rule(&self, i: usize) -> (rule: &Rule)
        requires
            i < self@.rules.len(),
        ensures
            rule@ == self@.rules[i as int],
    {
        &self.rules[i]
    }

    /// Decides whether `path` is included: the last rule that matches it
    /// decides, and a path that no rule matches is included.
    pub fn matches(&self, path: &str, is_dir: bool) -> (v: Verdict)
        requires
            self.wf(),
        ensures
            v == verdict(self@, path@, is_dir),
    {
        let mut v = Verdict::Included;
        let mut i: usize = 0;
        while i < self.rules.len()
            invariant
                i <= self.rules.len(),
                self.wf(),
                v == verdict_after(self@.root, self@.rules.take(i as int), path@, is_dir),
            decreases self.rules.len() - i,
        {
            let rule = &self.rules[i];
            proof {
                let seen = self@.rules.take(i as int + 1);
                assert(seen.drop_last() == self@.rules.take(i as int));
            }
            v = v.after_rule(rule.polarity, rule.hits(self.root.as_str(), path, is_dir));
            i += 1;
        }
        assert(self@.rules.take(i as int) == self@.rules);
        v
    }

    /// Whether `path` is included.
    pub fn is_included(&self, path: &str, is_dir: bool) -> (included: bool)
        requires
            self.wf(),
        ensures
            included == (verdict(self@, path@, is_dir) == Verdict::Included),
    {
        match self.matches(path, is_dir) {
            Verdict::Included => true,
            Verdict::Excluded => false,
        }
    }
}

/// Why a policy could not be compiled.
#[derive(Debug)]
pub enum PolicyError {
    /// The line is not a well-formed glob; `reason` is the glob parser's
    /// complaint.
    BadPattern { line: String, reason: String },
    /// The line is a glob, but no matcher could be built from it; `reason` is
    /// the matcher's complaint.
    BuildFailed { line: String, reason: String },
}

/// What keeps a line from compiling, as the contracts see it.
pub enum Failure {
    BadPattern { reason: Seq<char> },
    BuildFailed { reason: Seq<char> },
}

impl PolicyError {
    /// The offending line, in the override syntax.
    pub open spec fn line_view(&self) -> Seq<char> {
        match self {
            PolicyError::BadPattern { line, .. } => line@,
            PolicyError::BuildFailed { line, .. } => line@,
        }
    }

    /// What went wrong, with the complaint of the glob compiler where it
    /// made one.
    pub open spec fn failure_view(&self) -> Failure {
        match self {
            PolicyError::BadPattern { reason, .. } => Failure::BadPattern { reason: reason@ },
            PolicyError::BuildFailed { reason, .. } => Failure::BuildFailed { reason: reason@ },
        }
    }

    /// The text of the error message.
    pub open spec fn message_view(&self) -> Seq<char> {
        match self {
            PolicyError::BadPattern { line, reason } => "bad override '"@ + line@ + "': "@
                + reason@,
            PolicyError::BuildFailed { reason, .. } => reason@,
        }
    }

    /// The offending line, in the override syntax.
    pub fn line(&self) -> (line: &str)
        ensures
            line@ == self.line_view(),
    {
        match self {
            PolicyError::BadPattern { line, .. } => line.as_str(),
            PolicyError::BuildFailed { line, .. } => line.as_str(),
        }
    }

    /// A description that names the bad pattern and repeats the glob
    /// compiler's complaint.
    pub fn message(&self) -> (text: String)
        ensures
            text@ == self.message_view(),
    {
        match self {
            PolicyError::BadPattern { line, reason } => {
                let mut text = String::from_str("bad override '");
                text.append(line.as_str());
                text.append("': ");
                text.append(reason.as_str());
                text
            },
            PolicyError::BuildFailed { reason, .. } => reason.clone(),
        }
    }
}

/// The override line of an exclude pattern: the pattern without surrounding
/// whitespace, with a leading `!` put in front unless it has one.
pub open spec fn exclude_line(pattern: Seq<char>) -> Seq<char> {
    let p = trimmed(pattern);
    if begins_with(p, '!') {
        p
    } else {
        seq!['!'] + p
    }
}

/// The glob of a force-include pattern: the pattern without surrounding
/// whitespace and without one leading `!`.
pub open spec fn include_glob(pattern: Seq<char>) -> Seq<char> {
    let p = trimmed(pattern);
    if begins_with(p, '!') {
        p.drop_first()
    } else {
        p
    }
}

/// The override line of a force-include pattern: its glob, with a backslash
/// in front where the glob begins with `#` or `!`, which the override syntax
/// would otherwise read as a comment or as a negation.
pub open spec fn include_line(pattern: Seq<char>) -> Seq<char> {
    let glob = include_glob(pattern);
    if begins_with(glob, '#') || begins_with(glob, '!') {
        seq!['\\'] + glob
    } else {
        glob
    }
}

/// Whether a pattern of the given polarity names a glob, and so makes a
/// rule. An exclude pattern always does. A force-include pattern that is
/// blank or a lone `!` names none: nothing is wrong with it, and it lets
/// nothing in.
pub open spec fn names_glob(polarity: Polarity, pattern: Seq<char>) -> bool {
    match polarity {
        Polarity::Exclude => true,
        Polarity::ForceInclude => include_glob(pattern).len() > 0,
    }
}

/// The rule that a pattern of the given polarity compiles to.
pub open spec fn rule_for(polarity: Polarity, pattern: Seq<char>) -> RuleView {
    RuleView {
        polarity,
        line: match polarity {
            Polarity::Exclude => exclude_line(pattern),
            Polarity::ForceInclude => include_line(pattern),
        },
    }
}

/// What keeps a line that stands for a glob from becoming a one-line
/// matcher, if anything: what the glob parser objects to, else what the
/// matcher's construction objects to.
pub open spec fn failure_of(line: Seq<char>) -> Option<Failure> {
    if add_error(line) is Some {
        Some(Failure::BadPattern { reason: add_error(line)->0 })
    } else if build_error(seq![line]) is Some {
        Some(Failure::BuildFailed { reason: build_error(seq![line])->0 })
    } else {
        None
    }
}

/// Whether a one-line matcher can be made of `line`.
pub open spec fn line_compiles(line: Seq<char>) -> bool {
    failure_of(line) is None
}

/// The line of an exclude pattern always stands for a glob.
pub proof fn lemma_exclude_line_addable(pattern: Seq<char>)
    ensures
        addable(exclude_line(pattern)),
{
    lemma_trimmed_ends(pattern);
    let p = trimmed(pattern);
    if !begins_with(p, '!') {
        let line = seq!['!'] + p;
        if p.len() > 0 {
            assert(line.last() == p.last());
        }
    }
}

/// The line of a force-include pattern stands for a glob exactly when the
/// pattern names one.
pub proof fn lemma_include_line_addable(pattern: Seq<char>)
    ensures
        addable(include_line(pattern)) <==> include_glob(pattern).len() > 0,
{
    lemma_trimmed_ends(pattern);
    let p = trimmed(pattern);
    let glob = include_glob(pattern);
    if glob.len() > 0 {
        assert(glob.last() == p.last());
        if begins_with(glob, '#') || begins_with(glob, '!') {
            let line = seq!['\\'] + glob;
            assert(line.last() == glob.last());
        }
    }
}

/// Compiles one override line into a matcher of its own.
fn compile(root: &str, line: String) -> (res: Result<(String, Override), PolicyError>)
    requires
        addable(line@),
    ensures
        res is Ok <==> line_compiles(line@),
        res matches Ok(pair) ==> pair.0@ == line@ && override_root(pair.1) == rooted(root@)
            && override_lines(pair.1) == seq![line@],
        res matches Err(e) ==> e.line_view() == line@ && failure_of(line@) == Some(
            e.failure_view(),
        ),
{
    let mut ob = new_builder(root);
    match builder_add(&mut ob, line.as_str()) {
        Err(reason) => {
            return Err(PolicyError::BadPattern { line, reason });
        },
        Ok(_) => {},
    }
    match builder_build(&ob) {
        Ok(matcher) => Ok((line, matcher)),
        Err(reason) => Err(PolicyError::BuildFailed { line, reason }),
    }
}

/// What `add_exclude` and `add_include` promise of a pattern that names a
/// glob, for the rule `rule` that the pattern stands for: the rule is
/// appended exactly when its line compiles,
/// and otherwise the policy stays as it was and the error carries the line
/// and what kept it from compiling.
pub open spec fn rule_added(
    before: PolicyView,
    after: PolicyView,
    rule: RuleView,
    res: Result<(), PolicyError>,
) -> bool {
    &&& res is Ok <==> line_compiles(rule.line)
    &&& res is Ok ==> after == PolicyView { root: before.root, rules: before.rules.push(rule) }
    &&& res matches Err(e) ==> {
        &&& after == before
        &&& e.line_view() == rule.line
        &&& failure_of(rule.line) == Some(e.failure_view())
    }
}

impl Policy {
    fn push_rule(&mut self, polarity: Polarity, line: String) -> (res: Result<(), PolicyError>)
        requires
            old(self).wf(),
            addable(line@),
        ensures
            final(self).wf(),
            rule_added(old(self)@, final(self)@, RuleView { polarity, line: line@ }, res),
    {
        let ghost before = self@;
        match compile(self.root.as_str(), line) {
            Err(e) => Err(e),
            Ok((line, matcher)) => {
                let rule = Rule { polarity, line, matcher };
                self.rules.push(rule);
                assert(self@.rules == before.rules.push(rule@));
                Ok(())
            },
        }
    }
}

/// What `add_exclude` and `add_include` promise of a pattern: one that names
/// no glob is accepted and leaves the policy as it was, and for any other
/// `rule_added` holds of its rule.
pub open spec fn pattern_added(
    before: PolicyView,
    after: PolicyView,
    polarity: Polarity,
    pattern: Seq<char>,
    res: Result<(), PolicyError>,
) -> bool {
    if names_glob(polarity, pattern) {
        rule_added(before, after, rule_for(polarity, pattern), res)
    } else {
        res is Ok && after == before
    }
}

/// Appends an exclude rule for `pattern`: paths that the pattern matches are
/// left out, unless a later rule lets them in again.
pub fn add_exclude(policy: &mut Policy, pattern: &str) -> (res: Result<(), PolicyError>)
    requires
        old(policy).wf(),
    ensures
        final(policy).wf(),
        pattern_added(old(policy)@, final(policy)@, Polarity::Exclude, pattern@, res),
{
    let p = trim(pattern);
    proof {
        lemma_exclude_line_addable(pattern@);
    }
    let line = if starts_with_char(p, '!') {
        p.to_owned()
    } else {
        proof {
            reveal_strlit("!");
            assert("!"@ == seq!['!']);
        }
        joined("!", p)
    };
    policy.push_rule(Polarity::Exclude, line)
}

/// Appends a force-include rule for `pattern`: paths that the pattern matches
/// are included even where an earlier rule left them out. A pattern that is
/// blank or a lone `!` names no glob: it is accepted and adds no rule.
pub fn add_include(policy: &mut Policy, pattern: &str) -> (res: Result<(), PolicyError>)
    requires
        old(policy).wf(),
    ensures
        final(policy).wf(),
        pattern_added(old(policy)@, final(policy)@, Polarity::ForceInclude, pattern@, res),
{
    let p = trim(pattern);
    let glob = if starts_with_char(p, '!') {
        without_first_char(p)
    } else {
        p
    };
    if glob.is_empty() {
        return Ok(());
    }
    proof {
        lemma_include_line_addable(pattern@);
    }
    let line = if starts_with_char(glob, '#') || starts_with_char(glob, '!') {
        proof {
            reveal_strlit("\\");
            assert("\\"@ == seq!['\\']);
        }
        joined("\\", glob)
    } else {
        glob.to_owned()
    };
    policy.push_rule(Polarity::ForceInclude, line)
}

/// The rules that a list of patterns of one polarity compiles to, in order:
/// one for each pattern that names a glob.
pub open spec fn rules_for(polarity: Polarity, patterns: Seq<Seq<char>>) -> Seq<RuleView>
    decreases patterns.len(),
{
    if patterns.len() == 0 {
        Seq::empty()
    } else {
        let earlier = rules_for(polarity, patterns.drop_last());
        if names_glob(polarity, patterns.last()) {
            earlier.push(rule_for(polarity, patterns.last()))
        } else {
            earlier
        }
    }
}

/// The rules of a list of patterns are those of its front followed by those
/// of its back.
pub proof fn lemma_rules_for_concat(polarity: Polarity, a: Seq<Seq<char>>, b: Seq<Seq<char>>)
    ensures
        rules_for(polarity, a + b) == rules_for(polarity, a) + rules_for(polarity, b),
    decreases b.len(),
{
    if b.len() == 0 {
        assert(a + b == a);
    } else {
        assert((a + b).drop_last() == a + b.drop_last());
        lemma_rules_for_concat(polarity, a, b.drop_last());
    }
}

/// The rule of a pattern that names a glob stands in the rule list right
/// after the rules of the patterns before it.
proof fn lemma_rule_follows_earlier(polarity: Polarity, patterns: Seq<Seq<char>>, i: int)
    requires
        0 <= i < patterns.len(),
        names_glob(polarity, patterns[i]),
    ensures
        ({
            let all = rules_for(polarity, patterns);
            let k = rules_for(polarity, patterns.take(i)).len() as int;
            &&& k < all.len()
            &&& all.take(k) == rules_for(polarity, patterns.take(i))
            &&& all[k] == rule_for(polarity, patterns[i])
        }),
{
    let front = patterns.take(i + 1);
    assert(front.drop_last() == patterns.take(i));
    assert(patterns == front + patterns.skip(i + 1));
    lemma_rules_for_concat(polarity, front, patterns.skip(i + 1));
}

/// The patterns that every policy leaves out: version-control metadata,
/// virtual environments and caches, dependency and build output, and the
/// droppings of operating systems and editors.
pub open spec fn builtin_exclude_patterns() -> Seq<Seq<char>> {
    seq![
        "**/.git/**"@,
        "**/.hg/**"@,
        "**/.svn/**"@,
        "**/.venv/**"@,
        "**/venv/**"@,
        "**/__pycache__/**"@,
        "**/.mypy_cache/**"@,
        "**/.pytest_cache/**"@,
        "**/.ruff_cache/**"@,
        "**/.tox/**"@,
        "**/node_modules/**"@,
        "**/target/**"@,
        "**/dist/**"@,
        "**/build/**"@,
        "**/.next/**"@,
        "**/.nuxt/**"@,
        "**/.svelte-kit/**"@,
        "**/.DS_Store"@,
        "**/Thumbs.db"@,
    ]
}

/// The lockfile names that a policy leaves out unless lockfiles are asked for.
pub open spec fn lockfile_exclude_patterns() -> Seq<Seq<char>> {
    seq![
        "**/Cargo.lock"@,
        "**/package-lock.json"@,
        "**/yarn.lock"@,
        "**/pnpm-lock.yaml"@,
        "**/composer.lock"@,
        "**/Gemfile.lock"@,
        "**/poetry.lock"@,
        "**/Pipfile.lock"@,
    ]
}

/// The rule list of a policy: the built-in excludes, then the lockfile
/// excludes unless lockfiles are included, then the caller's excludes, then
/// the caller's force-includes, each group in the order given. A
/// force-include pattern that names no glob has no rule.
pub open spec fn planned_rules(
    include_lockfiles: bool,
    excludes: Seq<Seq<char>>,
    includes: Seq<Seq<char>>,
) -> Seq<RuleView> {
    rules_for(Polarity::Exclude, builtin_exclude_patterns()) + rules_for(
        Polarity::Exclude,
        if include_lockfiles {
            Seq::empty()
        } else {
            lockfile_exclude_patterns()
        },
    ) + rules_for(Polarity::Exclude, excludes) + rules_for(Polarity::ForceInclude, includes)
}

/// Every line of `rules` compiles.
pub open spec fn all_compile(rules: Seq<RuleView>) -> bool {
    forall|i: int| 0 <= i < rules.len() ==> line_compiles((#[trigger] rules[i]).line)
}

/// Rule `i` is the first of `rules` whose line does not compile, and `e`
/// reports it: the line, and what kept it from compiling.
pub open spec fn is_first_failure(rules: Seq<RuleView>, i: int, e: PolicyError) -> bool {
    &&& 0 <= i < rules.len()
    &&& all_compile(rules.take(i))
    &&& e.line_view() == rules[i].line
    &&& failure_of(rules[i].line) == Some(e.failure_view())
}

/// The built-in exclude patterns.
pub fn builtin_excludes() -> (v: Vec<String>)
    ensures
        texts(v@) == builtin_exclude_patterns(),
{
    let mut v: Vec<String> = Vec::new();
    v.push("**/.git/**".to_owned());
    v.push("**/.hg/**".to_owned());
    v.push("**/.svn/**".to_owned());
    v.push("**/.venv/**".to_owned());
    v.push("**/venv/**".to_owned());
    v.push("**/__pycache__/**".to_owned());
    v.push("**/.mypy_cache/**".to_owned());
    v.push("**/.pytest_cache/**".to_owned());
    v.push("**/.ruff_cache/**".to_owned());
    v.push("**/.tox/**".to_owned());
    v.push("**/node_modules/**".to_owned());
    v.push("**/target/**".to_owned());
    v.push("**/dist/**".to_owned());
    v.push("**/build/**".to_owned());
    v.push("**/.next/**".to_owned());
    v.push("**/.nuxt/**".to_owned());
    v.push("**/.svelte-kit/**".to_owned());
    v.push("**/.DS_Store".to_owned());
    v.push("**/Thumbs.db".to_owned());
    v
}

/// The lockfile exclude patterns.
pub fn lockfile_excludes() -> (v: Vec<String>)
    ensures
        texts(v@) == lockfile_exclude_patterns(),
{
    let mut v: Vec<String> = Vec::new();
    v.push("**/Cargo.lock".to_owned());
    v.push("**/package-lock.json".to_owned());
    v.push("**/yarn.lock".to_owned());
    v.push("**/pnpm-lock.yaml".to_owned());
    v.push("**/composer.lock".to_owned());
    v.push("**/Gemfile.lock".to_owned());
    v.push("**/poetry.lock".to_owned());
    v.push("**/Pipfile.lock".to_owned());
    v
}

/// Appends a rule of the given polarity for each pattern, stopping at the
/// first that does not compile.
fn add_all(policy: &mut Policy, patterns: &[String], polarity: Polarity) -> (res: Result<
    (),
    PolicyError,
>)
    requires
        old(policy).wf(),
    ensures
        final(policy).wf(),
        final(policy)@.root == old(policy)@.root,
        match res {
            Ok(_) => {
                &&& final(policy)@.rules == old(policy)@.rules + rules_for(
                    polarity,
                    texts(patterns@),
                )
                &&& all_compile(rules_for(polarity, texts(patterns@)))
            },
            Err(e) => exists|k: int|
                is_first_failure(rules_for(polarity, texts(patterns@)), k, e),
        },
{
    let ghost start = policy@;
    let ghost all = texts(patterns@);
    let mut i: usize = 0;
    while i < patterns.len()
        invariant
            i <= patterns.len(),
            policy.wf(),
            start == old(policy)@,
            all == texts(patterns@),
            policy@.root == start.root,
            policy@.rules == start.rules + rules_for(polarity, all.take(i as int)),
            all_compile(rules_for(polarity, all.take(i as int))),
        decreases patterns.len() - i,
    {
        let pattern = patterns[i].as_str();
        let ghost earlier = rules_for(polarity, all.take(i as int));
        proof {
            assert(all.take(i as int + 1).drop_last() == all.take(i as int));
            assert(all.take(i as int + 1).last() == pattern@);
        }
        let added = match polarity {
            Polarity::Exclude => add_exclude(policy, pattern),
            Polarity::ForceInclude => add_include(policy, pattern),
        };
        match added {
            Err(e) => {
                proof {
                    lemma_rule_follows_earlier(polarity, all, i as int);
                    assert(is_first_failure(rules_for(polarity, all), earlier.len() as int, e));
                }
                return Err(e);
            },
            Ok(_) => {},
        }
        proof {
            let longer = rules_for(polarity, all.take(i as int + 1));
            assert forall|j: int| 0 <= j < longer.len() implies line_compiles(
                (#[trigger] longer[j]).line,
            ) by {
                if j < earlier.len() {
                    assert(longer[j] == earlier[j]);
                }
            }
        }
        i += 1;
    }
    assert(all.take(i as int) == all);
    Ok(())
}

/// A failure inside one group of rules is a failure of the whole list, at the
/// group's offset, provided everything before the group compiles.
proof fn lemma_failure_in_part(
    whole: Seq<RuleView>,
    prefix: Seq<RuleView>,
    part: Seq<RuleView>,
    rest: Seq<RuleView>,
    k: int,
    e: PolicyError,
)
    requires
        whole == prefix + part + rest,
        all_compile(prefix),
        is_first_failure(part, k, e),
    ensures
        is_first_failure(whole, prefix.len() + k, e),
{
    let i = prefix.len() + k;
    assert forall|j: int| 0 <= j < whole.take(i).len() implies line_compiles(
        (#[trigger] whole.take(i)[j]).line,
    ) by {
        if j < prefix.len() {
            assert(whole.take(i)[j] == prefix[j]);
        } else {
            assert(whole.take(i)[j] == part.take(k)[j - prefix.len()]);
        }
    }
}

/// Two lists that compile give a list that compiles.
proof fn lemma_all_compile_concat(a: Seq<RuleView>, b: Seq<RuleView>)
    requires
        all_compile(a),
        all_compile(b),
    ensures
        all_compile(a + b),
{
    assert forall|j: int| 0 <= j < (a + b).len() implies line_compiles(
        (#[trigger] (a + b)[j]).line,
    ) by {
        if j < a.len() {
            assert((a + b)[j] == a[j]);
        } else {
            assert((a + b)[j] == b[j - a.len()]);
        }
    }
}

/// Compiles the policy for the walk at `root`.
///
/// The rules are the built-in excludes, the lockfile excludes unless
/// `include_lockfiles` is set, the caller's `excludes` and the caller's
/// `includes` as force-include rules, in that order; an include that is
/// blank or a lone `!` is passed over. Compilation succeeds exactly when
/// every rule's line compiles; otherwise the error reports the first line
/// that does not, with the complaint of the glob compiler.
pub fn build_overrides(
    root: &str,
    include_lockfiles: bool,
    excludes: &[String],
    includes: &[String],
) -> (res: Result<Policy, PolicyError>)
    ensures
        match res {
            Ok(policy) => {
                &&& policy.wf()
                &&& policy@.root == root@
                &&& policy@.rules == planned_rules(
                    include_lockfiles,
                    texts(excludes@),
                    texts(includes@),
                )
                &&& all_compile(policy@.rules)
            },
            Err(e) => exists|i: int|
                is_first_failure(
                    planned_rules(include_lockfiles, texts(excludes@), texts(includes@)),
                    i,
                    e,
                ),
        },
{
    let ghost plan = planned_rules(include_lockfiles, texts(excludes@), texts(includes@));
    let ghost a = rules_for(Polarity::Exclude, builtin_exclude_patterns());
    let ghost b = rules_for(
        Polarity::Exclude,
        if include_lockfiles {
            Seq::empty()
        } else {
            lockfile_exclude_patterns()
        },
    );
    let ghost c = rules_for(Polarity::Exclude, texts(excludes@));
    let ghost d = rules_for(Polarity::ForceInclude, texts(includes@));
    let ghost none = Seq::<RuleView>::empty();
    let mut policy = Policy::new(root);

    // Version-control metadata, caches, build output, editor noise.
    let builtin = builtin_excludes();
    match add_all(&mut policy, builtin.as_slice(), Polarity::Exclude) {
        Err(e) => {
            proof {
                let k = choose|k: int| is_first_failure(a, k, e);
                assert(plan == none + a + (b + c + d));
                lemma_failure_in_part(plan, none, a, b + c + d, k, e);
            }
            return Err(e);
        },
        Ok(_) => {},
    }

    // Lockfiles are left out unless the caller asks for them.
    if !include_lockfiles {
        let lockfiles = lockfile_excludes();
        match add_all(&mut policy, lockfiles.as_slice(), Polarity::Exclude) {
            Err(e) => {
                proof {
                    let k = choose|k: int| is_first_failure(b, k, e);
                    assert(plan == a + b + (c + d));
                    lemma_failure_in_part(plan, a, b, c + d, k, e);
                }
                return Err(e);
            },
            Ok(_) => {},
        }
    }
    proof {
        lemma_all_compile_concat(a, b);
    }

    match add_all(&mut policy, excludes, Polarity::Exclude) {
        Err(e) => {
            proof {
                let k = choose|k: int| is_first_failure(c, k, e);
                lemma_failure_in_part(plan, a + b, c, d, k, e);
            }
            return Err(e);
        },
        Ok(_) => {},
    }
    proof {
        lemma_all_compile_concat(a + b, c);
    }

    // Force-includes come last, so that they win over every exclude.
    match add_all(&mut policy, includes, Polarity::ForceInclude) {
        Err(e) => {
            proof {
                let k = choose|k: int| is_first_failure(d, k, e);
                lemma_failure_in_part(plan, a + b + c, d, none, k, e);
            }
            return Err(e);
        },
        Ok(_) => {},
    }
    proof {
        lemma_all_compile_concat(a + b + c, d);
    }
    Ok(policy)
}

} // verus!
