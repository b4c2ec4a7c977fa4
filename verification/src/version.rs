//! The version engine: semantic-version parsing (through the `semver`
//! crate), rendering, and signed component bumps with an explicit
//! failure policy for decrements past zero.
use vstd::prelude::*;
use vstd::string::*;

use crate::text::dec_str;
use crate::text::u64_to_string;

verus! {

/// A semantic version split into its numeric components and its textual
/// pre-release and build-metadata suffixes.
pub struct Version {
    pub major: u64,
    pub minor: u64,
    pub patch: u64,
    pub pre: String,
    pub build: String,
}

/// The mathematical value of a `Version`.
pub struct VersionView {
    pub major: u64,
    pub minor: u64,
    pub patch: u64,
    pub pre: Seq<char>,
    pub build: Seq<char>,
}

impl View for Version {
    type V = VersionView;

    open spec fn view(&self) -> VersionView {
        VersionView {
            major: self.major,
            minor: self.minor,
            patch: self.patch,
            pre: self.pre@,
            build: self.build@,
        }
    }
}

/// One of the three numeric components of a semantic version.
#[derive(Clone, Copy, Debug, PartialEq, Eq, Structural)]
pub enum Component {
    Major,
    Minor,
    Patch,
}

/// A signed increment request aimed at one version component.
#[derive(Debug, Clone, PartialEq)]
pub enum VersionBump {
    Major(i32),
    Minor(i32),
    Patch(i32),
}

/// Why a version operation failed.
#[derive(Debug)]
pub enum VersionError {
    /// The current version text is not a valid semantic version.
    Invalid { version: String },
    /// A negative bump would drive the component below zero.
    Underflow { component: Component, magnitude: u64, version: String },
    /// A positive bump would push the component past its maximum.
    Overflow { component: Component, amount: u64, version: String },
}

/// The mathematical value of a `VersionError`.
pub enum VersionErrorView {
    Invalid { version: Seq<char> },
    Underflow { component: Component, magnitude: u64, version: Seq<char> },
    Overflow { component: Component, amount: u64, version: Seq<char> },
}

impl View for VersionError {
    type V = VersionErrorView;

    open spec fn view(&self) -> VersionErrorView {
        match self {
            VersionError::Invalid { version } => VersionErrorView::Invalid { version: version@ },
            VersionError::Underflow { component, magnitude, version } => VersionErrorView::Underflow {
                component: *component,
                magnitude: *magnitude,
                version: version@,
            },
            VersionError::Overflow { component, amount, version } => VersionErrorView::Overflow {
                component: *component,
                amount: *amount,
                version: version@,
            },
        }
    }
}

/// What `semver::Version::parse` returns for a given string: the parsed
/// parts on success, the parser's stated reason on failure.
pub uninterp spec fn semver_parse(s: Seq<char>) -> Result<VersionView, Seq<char>>;

/// Relies on `semver::Version::parse`: the outcome depends on the text
/// alone; `Prerelease::as_str` and `BuildMetadata::as_str` return the
/// stored suffix text verbatim, and `Error`'s display is the parser's
/// stated reason.
#[verifier::external_body]
pub(crate) fn parse_semver(text: &str) -> (r: Result<Version, String>)
    ensures
        (match r {
            Ok(v) => Ok::<VersionView, Seq<char>>(v@),
            Err(e) => Err(e@),
        }) == semver_parse(text@),
{
    match semver::Version::parse(text) {
        Ok(v) => Ok(Version { major: v.major, minor: v.minor, patch: v.patch, pre: v.pre.as_str().to_string(), build: v.build.as_str().to_string() }),
        Err(e) => Err(e.to_string()),
    }
}

/// The canonical text of a version: `major.minor.patch`, then `-pre`
/// when a pre-release suffix is present, then `+build` when build
/// metadata is present.
pub open spec fn spec_render(v: VersionView) -> Seq<char> {
    dec_str(v.major as int) + "."@ + dec_str(v.minor as int) + "."@ + dec_str(v.patch as int) + (
    if v.pre.len() > 0 {
        "-"@ + v.pre
    } else {
        Seq::<char>::empty()
    }) + (if v.build.len() > 0 {
        "+"@ + v.build
    } else {
        Seq::<char>::empty()
    })
}

/// Renders a version as its canonical text.
pub fn render_version(v: &Version) -> (s: String)
    ensures
        s@ == spec_render(v@),
{
    let mut s = u64_to_string(v.major);
    s.append(".");
    s.append(u64_to_string(v.minor).as_str());
    s.append(".");
    s.append(u64_to_string(v.patch).as_str());
    if !v.pre.as_str().is_empty() {
        s.append("-");
        s.append(v.pre.as_str());
    }
    if !v.build.as_str().is_empty() {
        s.append("+");
        s.append(v.build.as_str());
    }
    proof {
        assert(s@ =~= spec_render(v@));
    }
    s
}

/// The signed amount carried by a bump request.
pub open spec fn amount_of(b: VersionBump) -> int {
    match b {
        VersionBump::Major(a) => a as int,
        VersionBump::Minor(a) => a as int,
        VersionBump::Patch(a) => a as int,
    }
}

/// The component a bump request aims at.
pub open spec fn component_of(b: VersionBump) -> Component {
    match b {
        VersionBump::Major(_) => Component::Major,
        VersionBump::Minor(_) => Component::Minor,
        VersionBump::Patch(_) => Component::Patch,
    }
}

/// The current value of the component a bump request aims at.
pub open spec fn target_of(b: VersionBump, v: VersionView) -> int {
    match b {
        VersionBump::Major(_) => v.major as int,
        VersionBump::Minor(_) => v.minor as int,
        VersionBump::Patch(_) => v.patch as int,
    }
}

/// The version after the targeted component takes the value `nv` and
/// the lower-order components reset: a major bump zeroes minor and
/// patch, a minor bump zeroes patch, a patch bump resets nothing.
/// Pre-release and build-metadata suffixes are kept verbatim.
pub open spec fn reset_applied(b: VersionBump, v: VersionView, nv: u64) -> VersionView {
    match b {
        VersionBump::Major(_) => VersionView { major: nv, minor: 0, patch: 0, pre: v.pre, build: v.build },
        VersionBump::Minor(_) => VersionView { major: v.major, minor: nv, patch: 0, pre: v.pre, build: v.build },
        VersionBump::Patch(_) => VersionView { major: v.major, minor: v.minor, patch: nv, pre: v.pre, build: v.build },
    }
}

/// The outcome of a bump on a parsed version: the new version, or the
/// error naming the component, the magnitude, and the original text `s`.
/// An amount of exactly zero is a no-op that leaves every component
/// (and so the reset rule) untouched.
pub open spec fn bump_outcome(b: VersionBump, v: VersionView, s: Seq<char>) -> Result<
    VersionView,
    VersionErrorView,
> {
    let a = amount_of(b);
    let cur = target_of(b, v);
    if a == 0 {
        Ok(v)
    } else if a < 0 && cur + a < 0 {
        Err(VersionErrorView::Underflow { component: component_of(b), magnitude: (-a) as u64, version: s })
    } else if cur + a > u64::MAX {
        Err(VersionErrorView::Overflow { component: component_of(b), amount: a as u64, version: s })
    } else {
        Ok(reset_applied(b, v, (cur + a) as u64))
    }
}

/// What `apply_to_version` returns: the rendered new version, or the
/// first error met while parsing or bumping.
pub open spec fn spec_apply_to_version(b: VersionBump, s: Seq<char>) -> Result<
    Seq<char>,
    VersionErrorView,
> {
    match semver_parse(s) {
        Err(_) => Err(VersionErrorView::Invalid { version: s }),
        Ok(v) => match bump_outcome(b, v, s) {
            Err(e) => Err(e),
            Ok(v2) => Ok(spec_render(v2)),
        },
    }
}

impl VersionBump {
    /// The component this bump aims at.
    pub fn component(&self) -> (c: Component)
        ensures
            c == component_of(*self),
    {
        match self {
            VersionBump::Major(_) => Component::Major,
            VersionBump::Minor(_) => Component::Minor,
            VersionBump::Patch(_) => Component::Patch,
        }
    }

    fn amount(&self) -> (a: i32)
        ensures
            a as int == amount_of(*self),
    {
        match self {
            VersionBump::Major(a) => *a,
            VersionBump::Minor(a) => *a,
            VersionBump::Patch(a) => *a,
        }
    }

    fn target(&self, v: &Version) -> (t: u64)
        ensures
            t as int == target_of(*self, v@),
    {
        match self {
            VersionBump::Major(_) => v.major,
            VersionBump::Minor(_) => v.minor,
            VersionBump::Patch(_) => v.patch,
        }
    }

    fn with_new_value(&self, v: Version, nv: u64) -> (r: Version)
        ensures
            r@ == reset_applied(*self, v@, nv),
    {
        match self {
            VersionBump::Major(_) => Version { major: nv, minor: 0, patch: 0, pre: v.pre, build: v.build },
            VersionBump::Minor(_) => Version {
                major: v.major,
                minor: nv,
                patch: 0,
                pre: v.pre,
                build: v.build,
            },
            VersionBump::Patch(_) => Version {
                major: v.major,
                minor: v.minor,
                patch: nv,
                pre: v.pre,
                build: v.build,
            },
        }
    }

    /// Applies this bump to a version string. On success the result is
    /// the canonical rendering of the bumped version; a decrement past
    /// zero is rejected, never clamped, and suffixes are preserved.
    pub fn apply_to_version(&self, current: &str) -> (r: Result<String, VersionError>)
        ensures
            (match r {
                Ok(s) => Ok::<Seq<char>, VersionErrorView>(s@),
                Err(e) => Err(e@),
            }) == spec_apply_to_version(*self, current@),
    {
        let parsed = match parse_semver(current) {
            Ok(v) => v,
            Err(_) => {
                return Err(VersionError::Invalid { version: current.to_owned() });
            },
        };
        let amount = self.amount();
        let cur = self.target(&parsed);
        if amount == 0 {
            return Ok(render_version(&parsed));
        }
        if amount < 0 {
            let mag = (-(amount as i64)) as u64;
            if cur < mag {
                return Err(VersionError::Underflow {
                    component: self.component(),
                    magnitude: mag,
                    version: current.to_owned(),
                });
            }
            let nv = cur - mag;
            Ok(render_version(&self.with_new_value(parsed, nv)))
        } else {
            match cur.checked_add(amount as u64) {
                None => Err(VersionError::Overflow {
                    component: self.component(),
                    amount: amount as u64,
                    version: current.to_owned(),
                }),
                Some(nv) => Ok(render_version(&self.with_new_value(parsed, nv))),
            }
        }
    }
}

/// A non-negative bump never decreases any targeted component and
/// succeeds exactly when the new component value fits; a positive bump
/// moreover leaves the higher-order components untouched and zeroes
/// the lower-order components, while a zero bump changes nothing.
pub proof fn lemma_non_negative_bump(b: VersionBump, v: VersionView, s: Seq<char>)
    requires
        amount_of(b) >= 0,
    ensures
        bump_outcome(b, v, s) is Ok <==> target_of(b, v) + amount_of(b) <= u64::MAX,
        bump_outcome(b, v, s) matches Ok(v2) ==> target_of(b, v2) >= target_of(b, v),
        amount_of(b) == 0 ==> bump_outcome(b, v, s) == Ok::<VersionView, VersionErrorView>(v),
        amount_of(b) > 0 ==> (bump_outcome(b, v, s) matches Ok(v2) ==> match b {
            VersionBump::Major(_) => v2.minor == 0 && v2.patch == 0,
            VersionBump::Minor(_) => v2.major == v.major && v2.patch == 0,
            VersionBump::Patch(_) => v2.major == v.major && v2.minor == v.minor,
        }),
{
}

/// A negative bump whose magnitude exceeds the targeted component is
/// rejected with the underflow error naming the component, the
/// magnitude, and the original version text; it is never clamped.
pub proof fn lemma_decrement_underflow(b: VersionBump, v: VersionView, s: Seq<char>)
    requires
        amount_of(b) < 0,
        target_of(b, v) < -amount_of(b),
        semver_parse(s) == Ok::<VersionView, Seq<char>>(v),
    ensures
        spec_apply_to_version(b, s) == Err::<Seq<char>, VersionErrorView>(
            VersionErrorView::Underflow {
                component: component_of(b),
                magnitude: (-amount_of(b)) as u64,
                version: s,
            },
        ),
{
}

/// The pre-release and build-metadata suffixes survive every successful
/// bump byte for byte: the bumped version carries them verbatim, and
/// the rendered result ends with exactly their rendering.
pub proof fn lemma_bump_preserves_suffixes(b: VersionBump, v: VersionView, s: Seq<char>)
    requires
        semver_parse(s) == Ok::<VersionView, Seq<char>>(v),
    ensures
        bump_outcome(b, v, s) matches Ok(v2) ==> v2.pre == v.pre && v2.build == v.build,
        spec_apply_to_version(b, s) matches Ok(t) ==> ({
            let tail = (if v.pre.len() > 0 {
                "-"@ + v.pre
            } else {
                Seq::<char>::empty()
            }) + (if v.build.len() > 0 {
                "+"@ + v.build
            } else {
                Seq::<char>::empty()
            });
            t.len() >= tail.len() && t.skip(t.len() - tail.len()) == tail
        }),
{
    if spec_apply_to_version(b, s) is Ok {
        let v2 = bump_outcome(b, v, s)->Ok_0;
        let t = spec_apply_to_version(b, s)->Ok_0;
        let head = dec_str(v2.major as int) + "."@ + dec_str(v2.minor as int) + "."@ + dec_str(
            v2.patch as int,
        );
        let tail = (if v.pre.len() > 0 {
            "-"@ + v.pre
        } else {
            Seq::<char>::empty()
        }) + (if v.build.len() > 0 {
            "+"@ + v.build
        } else {
            Seq::<char>::empty()
        });
        assert(t =~= head + tail);
        assert(t.skip(t.len() - tail.len()) =~= tail);
    }
}

/// The wording for a component in error messages.
pub open spec fn component_word(c: Component) -> Seq<char> {
    match c {
        Component::Major => "major"@,
        Component::Minor => "minor"@,
        Component::Patch => "patch"@,
    }
}

fn component_str(c: Component) -> (s: &'static str)
    ensures
        s@ == component_word(c),
{
    match c {
        Component::Major => "major",
        Component::Minor => "minor",
        Component::Patch => "patch",
    }
}

/// The exact text of each version error.
pub open spec fn spec_error_message(e: VersionErrorView) -> Seq<char> {
    match e {
        VersionErrorView::Invalid { version } => "Invalid semver version: '"@ + version + "'"@,
        VersionErrorView::Underflow { component, magnitude, version } => "Cannot decrement "@
            + component_word(component) + " version by "@ + dec_str(magnitude as int) + " from "@ + version
            + ": would result in negative version"@,
        VersionErrorView::Overflow { component, amount, version } => "Cannot increment "@
            + component_word(component) + " version by "@ + dec_str(amount as int) + " from "@ + version
            + ": version component overflow"@,
    }
}

impl VersionError {
    /// The error rendered as one line of text.
    pub fn message(&self) -> (s: String)
        ensures
            s@ == spec_error_message(self@),
    {
        match self {
            VersionError::Invalid { version } => {
                let mut s = "Invalid semver version: '".to_owned();
                s.append(version.as_str());
                s.append("'");
                proof {
                    assert(s@ =~= spec_error_message(self@));
                }
                s
            },
            VersionError::Underflow { component, magnitude, version } => {
                let mut s = "Cannot decrement ".to_owned();
                s.append(component_str(*component));
                s.append(" version by ");
                s.append(u64_to_string(*magnitude).as_str());
                s.append(" from ");
                s.append(version.as_str());
                s.append(": would result in negative version");
                proof {
                    assert(s@ =~= spec_error_message(self@));
                }
                s
            },
            VersionError::Overflow { component, amount, version } => {
                let mut s = "Cannot increment ".to_owned();
                s.append(component_str(*component));
                s.append(" version by ");
                s.append(u64_to_string(*amount).as_str());
                s.append(" from ");
                s.append(version.as_str());
                s.append(": version component overflow");
                proof {
                    assert(s@ =~= spec_error_message(self@));
                }
                s
            },
        }
    }
}

} // verus!
