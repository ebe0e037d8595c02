//! What reading the legacy configuration gives, and how the results of
//! several files are put together. Reading itself is not done here.

use vstd::prelude::*;
use crate::interface::Interface;
use crate::netconfig::Netconfig;
use crate::netconfig_dhcp::NetconfigDhcp;
use crate::report::Warning;
use crate::text::str_eq;

verus! {

/// The interface records of the legacy configuration, its netconfig
/// settings where there are any, and the warnings of reading them.
#[derive(Clone, Debug, PartialEq, Eq, Default)]
pub struct InterfacesResult {
    pub interfaces: Vec<Interface>,
    pub netconfig: Option<Netconfig>,
    pub netconfig_dhcp: Option<NetconfigDhcp>,
    pub warnings: Vec<Warning>,
}

/// The interfaces that are migrated: all but the loopback interface `lo`,
/// which the target system has by itself.
pub open spec fn spec_without_loopback(interfaces: Seq<Interface>) -> Seq<Interface> {
    interfaces.filter(|i: Interface| i.name@ != "lo"@)
}

impl InterfacesResult {
    /// Adds the interfaces and warnings that one more file gave.
    pub fn append(&mut self, interfaces: Vec<Interface>, warnings: Vec<Warning>)
        ensures
            final(self).interfaces@ == old(self).interfaces@ + interfaces@,
            final(self).warnings.deep_view() == old(self).warnings.deep_view() + warnings.deep_view(),
            final(self).netconfig == old(self).netconfig,
            final(self).netconfig_dhcp == old(self).netconfig_dhcp,
    {
        let mut interfaces = interfaces;
        let mut warnings = warnings;
        let ghost a = self.warnings.deep_view();
        let ghost b = warnings.deep_view();
        assert(a.len() == self.warnings@.len() && b.len() == warnings@.len());
        self.interfaces.append(&mut interfaces);
        self.warnings.append(&mut warnings);
        assert(self.warnings.deep_view() =~= a + b);
    }

    /// Takes the loopback interface out: it needs no migration.
    pub fn retain_without_loopback(&mut self)
        ensures
            final(self).interfaces@ == spec_without_loopback(old(self).interfaces@),
            final(self).warnings == old(self).warnings,
            final(self).netconfig == old(self).netconfig,
            final(self).netconfig_dhcp == old(self).netconfig_dhcp,
    {
        let ghost before = self.interfaces@;
        let ghost keep = |i: Interface| i.name@ != "lo"@;
        let mut kept: Vec<Interface> = Vec::new();
        let mut all: Vec<Interface> = Vec::new();
        all.append(&mut self.interfaces);
        assert(all@ =~= before);
        assert(before.take(0).filter(keep) =~= Seq::empty()) by {
            assert(before.take(0) =~= Seq::empty());
        }
        for interface in it: all
            invariant
                it.seq() == before,
                kept@ == before.take(it.index() as int).filter(keep),
                keep == |i: Interface| i.name@ != "lo"@,
        {
            proof {
                let upto = before.take(it.index() + 1);
                assert(upto.drop_last() =~= before.take(it.index() as int));
                assert(upto.last() == interface);
                reveal(Seq::filter);
            }
            if !str_eq(interface.name.as_str(), "lo") {
                kept.push(interface);
            }
        }
        assert(before.take(before.len() as int) =~= before);
        self.interfaces = kept;
    }
}

/// Whether the `regex` crate accepts `pattern` as a regular expression.
pub uninterp spec fn regex_valid(pattern: Seq<char>) -> bool;

/// `text` with every match of the regular expression `pattern` replaced by
/// `with`, as `Regex::replace_all` of the `regex` crate does it; `with` may
/// refer to the groups of the match.
pub uninterp spec fn regex_replaced(pattern: Seq<char>, text: Seq<char>, with: Seq<char>) -> Seq<char>;

/// Trusted: `Regex::new` and `Regex::replace_all` of `regex`. `None` where
/// `Regex::new` refuses the pattern; else the text with the matches
/// replaced. Both are named, not described.
#[verifier::external_body]
fn regex_replace_all(pattern: &str, text: &str, with: &str) -> (r: Option<String>)
    ensures
        match r {
            Some(replaced) => regex_valid(pattern@) && replaced@ == regex_replaced(
                pattern@,
                text@,
                with@,
            ),
            None => !regex_valid(pattern@),
        },
{
    match regex::Regex::new(pattern) {
        Ok(re) => Some(re.replace_all(text, with).into_owned()),
        Err(_) => None,
    }
}

/// The regular expression for the start of a tag with a colon in its
/// name: the bracket, a slash where the tag closes, and the two parts of
/// the name.
pub open spec fn tag_with_colon() -> Seq<char> {
    "<([\\/]?)(\\w+):(\\w+)\\b"@
}

/// What the start of such a tag is replaced by: the same with a dash in
/// the place of the colon.
pub open spec fn tag_with_dash() -> Seq<char> {
    "<$1$2-$3"@
}

/// `text` with a dash for the colon in the name of every tag.
pub open spec fn spec_replace_colons(text: Seq<char>) -> Seq<char> {
    if regex_valid(tag_with_colon()) {
        regex_replaced(tag_with_colon(), text, tag_with_dash())
    } else {
        text
    }
}

/// Puts a dash in the place of the colon in the name of every tag of the
/// legacy configuration, so that the names are plain for the reader of
/// the records.
pub fn replace_colons(colon_string: &str) -> (r: String)
    ensures
        r@ == spec_replace_colons(colon_string@),
{
    match regex_replace_all("<([\\/]?)(\\w+):(\\w+)\\b", colon_string, "<$1$2-$3") {
        Some(replaced) => replaced,
        None => colon_string.to_owned(),
    }
}

} // verus!
