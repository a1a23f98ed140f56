//! The site's configuration: the talks whose slides are published, and the
//! small rewrites done while assembling the site.

use vstd::prelude::*;

use crate::paths::{join_path, path_join};
use crate::text::{law_replace_idempotent, replace_str, replaced, replacement_is_inert};

verus! {

/// The text that `str::to_lowercase` makes of `s`.
pub uninterp spec fn lowercased(s: Seq<char>) -> Seq<char>;

/// `str::to_lowercase`. Claimed: the result is a function of the text
/// alone, named `lowercased`; the Unicode case mapping itself is not stated.
#[verifier::external_body]
fn lowercase_str(s: &str) -> (res: String)
    ensures
        res@ == lowercased(s@),
{
    s.to_lowercase()
}

/// The directory that holds a talk's slides: its date, a dash, and its name
/// with spaces turned into dashes and then lowercased.
pub open spec fn talk_dir_name(name: Seq<char>, date: Seq<char>) -> Seq<char> {
    date + seq!['-'] + lowercased(replaced(name, seq![' '], seq!['-']))
}

/// A talk's directory is its date, a dash, and its whole name lowercased
/// with every space, and nothing else, turned into a dash; a name without
/// spaces is only lowercased.
pub proof fn law_dir_name_keeps_the_name(name: Seq<char>, date: Seq<char>)
    ensures
        talk_dir_name(name, date) == date + seq!['-'] + lowercased(
            name.map_values(|x: char| if x == ' ' { '-' } else { x }),
        ),
        !name.contains(' ') ==> talk_dir_name(name, date) == date + seq!['-'] + lowercased(name),
{
    crate::text::law_replace_char(name, ' ', '-');
    if !name.contains(' ') {
        assert(name.map_values(|x: char| if x == ' ' { '-' } else { x }) =~= name) by {
            assert forall|i: int| 0 <= i < name.len() implies name[i] != ' ' by {
                if name[i] == ' ' {
                    assert(name.contains(' '));
                }
            }
        }
    }
}

/// A talk whose slides are published.
pub struct Talk {
    pub name: String,
    pub date: String,
    pub location: String,
    /// Filled from `name` and `date` once the configuration is read.
    pub dir_name: String,
}

impl Talk {
    /// The directory that holds the talk's slides.
    pub fn dir_name(&self) -> (res: String)
        ensures
            res@ == talk_dir_name(self.name@, self.date@),
    {
        proof {
            reveal_strlit(" ");
            reveal_strlit("-");
        }
        let dashed = replace_str(self.name.as_str(), " ", "-");
        let lower = lowercase_str(dashed.as_str());
        let mut out = self.date.clone();
        out.append("-");
        out.append(lower.as_str());
        assert(" "@ =~= seq![' ']);
        assert("-"@ =~= seq!['-']);
        out
    }
}

/// The slides section of the configuration.
pub struct SlidesConfig {
    pub talks: Vec<Talk>,
}

/// The site's configuration.
pub struct Config {
    pub slides: SlidesConfig,
}

/// A copy of one tree of the slides repository into the site.
pub type CopyJob = (String, String);

impl SlidesConfig {
    /// Sets every talk's `dir_name` to the directory its slides are in,
    /// keeping the talks, their order and their other fields.
    pub fn assign_dir_names(&mut self)
        ensures
            final(self).talks@.len() == old(self).talks@.len(),
            forall|i: int|
                0 <= i < old(self).talks@.len() ==> {
                    let t = #[trigger] final(self).talks@[i];
                    let o = old(self).talks@[i];
                    &&& t.name@ == o.name@
                    &&& t.date@ == o.date@
                    &&& t.location@ == o.location@
                    &&& t.dir_name@ == talk_dir_name(o.name@, o.date@)
                },
    {
        let mut out: Vec<Talk> = Vec::new();
        let mut i: usize = 0;
        while i < self.talks.len()
            invariant
                i <= self.talks.len(),
                self.talks@ == old(self).talks@,
                out@.len() == i,
                forall|j: int|
                    0 <= j < i ==> {
                        let t = #[trigger] out@[j];
                        let o = old(self).talks@[j];
                        &&& t.name@ == o.name@
                        &&& t.date@ == o.date@
                        &&& t.location@ == o.location@
                        &&& t.dir_name@ == talk_dir_name(o.name@, o.date@)
                    },
            decreases self.talks.len() - i,
        {
            let t = &self.talks[i];
            let talk = Talk {
                name: t.name.clone(),
                date: t.date.clone(),
                location: t.location.clone(),
                dir_name: t.dir_name(),
            };
            out.push(talk);
            i = i + 1;
        }
        self.talks = out;
    }

    /// The trees copied from the slides repository at `slides` into the
    /// site's slides directory `dist`: reveal.js's `dist` and `plugin`
    /// directories, then each talk's directory, in the order of the talks.
    pub fn copy_jobs(&self, slides: &str, dist: &str) -> (res: Vec<CopyJob>)
        ensures
            res@.len() == self.talks@.len() + 2,
            res@[0].0@ == path_join(slides@, "dist"@),
            res@[0].1@ == path_join(dist@, "dist"@),
            res@[1].0@ == path_join(slides@, "plugin"@),
            res@[1].1@ == path_join(dist@, "plugin"@),
            forall|i: int|
                0 <= i < self.talks@.len() ==> {
                    let d = talk_dir_name(self.talks@[i].name@, self.talks@[i].date@);
                    &&& (#[trigger] res@[i + 2]).0@ == path_join(slides@, d)
                    &&& res@[i + 2].1@ == path_join(dist@, d)
                },
    {
        let mut res: Vec<CopyJob> = Vec::new();
        res.push((join_path(slides, "dist"), join_path(dist, "dist")));
        res.push((join_path(slides, "plugin"), join_path(dist, "plugin")));
        let mut i: usize = 0;
        while i < self.talks.len()
            invariant
                i <= self.talks.len(),
                res@.len() == i + 2,
                res@[0].0@ == path_join(slides@, "dist"@),
                res@[0].1@ == path_join(dist@, "dist"@),
                res@[1].0@ == path_join(slides@, "plugin"@),
                res@[1].1@ == path_join(dist@, "plugin"@),
                forall|j: int|
                    0 <= j < i ==> {
                        let d = talk_dir_name(self.talks@[j].name@, self.talks@[j].date@);
                        &&& (#[trigger] res@[j + 2]).0@ == path_join(slides@, d)
                        &&& res@[j + 2].1@ == path_join(dist@, d)
                    },
            decreases self.talks.len() - i,
        {
            let d = self.talks[i].dir_name();
            res.push((join_path(slides, d.as_str()), join_path(dist, d.as_str())));
            i = i + 1;
        }
        res
    }
}

/// The blog's configuration with its base URL moved under `/blog/`: every
/// `baseURL = "/"` becomes `baseURL = "/blog/"`.
pub fn patch_blog_config(config: &str) -> (res: String)
    ensures
        res@ == replaced(config@, "baseURL = \"/\""@, "baseURL = \"/blog/\""@),
{
    proof {
        reveal_strlit("baseURL = \"/\"");
    }
    replace_str(config, "baseURL = \"/\"", "baseURL = \"/blog/\"")
}

/// Patching the blog's configuration a second time changes nothing: the
/// new base URL holds no `baseURL = "/"`, and none appears around it.
pub proof fn law_patch_blog_config_idempotent(config: Seq<char>)
    ensures
        replaced(
            replaced(config, "baseURL = \"/\""@, "baseURL = \"/blog/\""@),
            "baseURL = \"/\""@,
            "baseURL = \"/blog/\""@,
        ) == replaced(config, "baseURL = \"/\""@, "baseURL = \"/blog/\""@),
{
    reveal_strlit("baseURL = \"/\"");
    reveal_strlit("baseURL = \"/blog/\"");
    let pat = "baseURL = \"/\""@;
    let rep = "baseURL = \"/blog/\""@;
    assert(pat =~= seq!['b', 'a', 's', 'e', 'U', 'R', 'L', ' ', '=', ' ', '"', '/', '"']);
    assert(rep =~= seq!['b', 'a', 's', 'e', 'U', 'R', 'L', ' ', '=', ' ', '"', '/', 'b', 'l', 'o', 'g', '/', '"']);
    assert forall|i: int| 0 <= i < rep.len() && rep[i] == 'b' implies exists|j: int|
        0 <= j < pat.len() && i + j < rep.len() && rep[i + j] != pat[j] by {
        if i == 0 {
            assert(rep[12] != pat[12]);
        } else {
            assert(i == 12);
            assert(rep[13] != pat[1]);
        }
    }
    assert(replacement_is_inert(pat, rep, 'b'));
    law_replace_idempotent(config, pat, rep, 'b');
}

} // verus!
