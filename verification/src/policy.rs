//! The policy store: the forbidden-host list and the banned-word list, each
//! loaded from line-delimited text, with the host rule and the
//! response-content screen that answer membership queries over them.
use vstd::prelude::*;
use crate::text::{
    bytes_eq, contains_bytes, copy_range, find_first, find_first_byte, find_from, is_substring_of,
    lemma_find_first, lemma_find_first_unique, lemma_views_of_push, views_of,
};

verus! {

/// One trailing carriage return is dropped from a line that a line feed ended.
pub open spec fn strip_one_cr(s: Seq<u8>) -> Seq<u8> {
    if s.len() > 0 && s[s.len() - 1] == 13 {
        s.drop_last()
    } else {
        s
    }
}

/// The lines of `t`: segments split at each line feed, each such segment with
/// one trailing carriage return dropped; a final segment that no line feed
/// ended is kept verbatim, and an empty one is not a line.
pub open spec fn spec_lines(t: Seq<u8>) -> Seq<Seq<u8>>
    decreases t.len(),
{
    if t.len() == 0 {
        seq![]
    } else {
        let j = find_first(t, 10);
        if 0 <= j < t.len() {
            seq![strip_one_cr(t.subrange(0, j))] + spec_lines(t.subrange(j + 1, t.len() as int))
        } else {
            seq![t]
        }
    }
}

/// The nonempty entries among `ls`, in order.
pub open spec fn nonempty_only(ls: Seq<Seq<u8>>) -> Seq<Seq<u8>>
    decreases ls.len(),
{
    if ls.len() == 0 {
        seq![]
    } else {
        let rest = nonempty_only(ls.drop_last());
        if ls.last().len() > 0 {
            rest.push(ls.last())
        } else {
            rest
        }
    }
}

/// The policy entries read from one text: its nonempty lines, verbatim.
pub open spec fn policy_entries(text: Seq<u8>) -> Seq<Seq<u8>> {
    nonempty_only(spec_lines(text))
}

/// Every entry is nonempty.
pub proof fn lemma_nonempty_only(ls: Seq<Seq<u8>>)
    ensures
        forall|k: int| 0 <= k < nonempty_only(ls).len() ==> nonempty_only(ls)[k].len() > 0,
    decreases ls.len(),
{
    if ls.len() > 0 {
        lemma_nonempty_only(ls.drop_last());
        let rest = nonempty_only(ls.drop_last());
        if ls.last().len() > 0 {
            assert forall|k: int|
                0 <= k < nonempty_only(ls).len() implies nonempty_only(ls)[k].len() > 0 by {
                if k < rest.len() {
                } else {
                    assert(nonempty_only(ls)[k] == ls.last());
                }
            }
        }
    }
}

/// Split `text` into its lines.
pub fn split_lines(text: &Vec<u8>) -> (r: Vec<Vec<u8>>)
    ensures
        views_of(r@) == spec_lines(text@),
{
    let mut out: Vec<Vec<u8>> = Vec::new();
    let mut pos: usize = 0;
    proof {
        assert(text@.subrange(0, text@.len() as int) =~= text@);
        assert(views_of(out@) + spec_lines(text@) =~= spec_lines(text@));
    }
    while pos < text.len()
        invariant
            pos <= text@.len(),
            spec_lines(text@) == views_of(out@) + spec_lines(
                text@.subrange(pos as int, text@.len() as int),
            ),
        decreases text@.len() - pos,
    {
        let ghost suffix = text@.subrange(pos as int, text@.len() as int);
        let ghost out0 = out@;
        let j = find_from(text, pos, 10);
        proof {
            assert forall|m: int| 0 <= m < j - pos implies suffix[m] != 10 by {
                assert(suffix[m] == text@[pos + m]);
            }
            assert(j - pos < suffix.len() ==> suffix[j - pos] == 10);
            lemma_find_first_unique(suffix, 10, j - pos);
        }
        let mut line = copy_range(text, pos, j);
        if j < text.len() {
            // The segment was ended by a line feed: drop one trailing '\r'.
            if line.len() > 0 && line[line.len() - 1] == 13 {
                line.pop();
            }
            proof {
                assert(suffix.subrange(0, j - pos) =~= text@.subrange(pos as int, j as int));
                assert(line@ == strip_one_cr(suffix.subrange(0, j - pos)));
                assert(suffix.subrange(j - pos + 1, suffix.len() as int) =~= text@.subrange(
                    j + 1,
                    text@.len() as int,
                ));
            }
            let ghost line_view = line@;
            out.push(line);
            proof {
                lemma_views_of_push(out0, out@[out@.len() - 1]);
                assert(views_of(out@) =~= views_of(out0).push(line_view));
                assert(spec_lines(text@) =~= views_of(out@) + spec_lines(
                    text@.subrange(j + 1, text@.len() as int),
                ));
            }
            pos = j + 1;
        } else {
            // No further line feed: the rest is one verbatim line.
            proof {
                assert(suffix =~= line@);
                assert(spec_lines(suffix) == seq![suffix]);
            }
            let ghost line_view = line@;
            out.push(line);
            proof {
                lemma_views_of_push(out0, out@[out@.len() - 1]);
                assert(views_of(out@) =~= views_of(out0).push(line_view));
                assert(text@.subrange(text@.len() as int, text@.len() as int) =~= Seq::<
                    u8,
                >::empty());
                assert(spec_lines(text@) =~= views_of(out@) + spec_lines(
                    text@.subrange(text@.len() as int, text@.len() as int),
                ));
            }
            pos = text.len();
        }
    }
    proof {
        assert(text@.subrange(pos as int, text@.len() as int) =~= Seq::<u8>::empty());
        assert(spec_lines(text@) =~= views_of(out@));
    }
    out
}

/// Keep only the nonempty lines.
fn keep_nonempty(lines: Vec<Vec<u8>>) -> (r: Vec<Vec<u8>>)
    ensures
        views_of(r@) == nonempty_only(views_of(lines@)),
{
    let mut out: Vec<Vec<u8>> = Vec::new();
    proof {
        assert(views_of(lines@).subrange(0, 0) =~= Seq::<Seq<u8>>::empty());
        assert(views_of(out@) =~= Seq::<Seq<u8>>::empty());
    }
    let mut k: usize = 0;
    while k < lines.len()
        invariant
            k <= lines@.len(),
            views_of(out@) == nonempty_only(views_of(lines@).subrange(0, k as int)),
        decreases lines@.len() - k,
    {
        let ghost out0 = out@;
        if lines[k].len() > 0 {
            let entry = copy_range(&lines[k], 0, lines[k].len());
            proof {
                assert(entry@ =~= views_of(lines@)[k as int]);
            }
            let ghost entry_view = entry@;
            out.push(entry);
            proof {
                lemma_views_of_push(out0, out@[out@.len() - 1]);
                assert(views_of(out@) =~= views_of(out0).push(entry_view));
            }
        }
        proof {
            let prefix1 = views_of(lines@).subrange(0, k + 1);
            assert(prefix1.drop_last() =~= views_of(lines@).subrange(0, k as int));
            assert(prefix1.last() == views_of(lines@)[k as int]);
            assert(views_of(out@) =~= nonempty_only(prefix1));
        }
        k = k + 1;
    }
    proof {
        assert(views_of(lines@).subrange(0, lines@.len() as int) =~= views_of(lines@));
    }
    out
}

/// The shared, read-only policy: forbidden host entries and banned words.
pub struct Policy {
    pub forbidden_hosts: Vec<Vec<u8>>,
    pub banned_words: Vec<Vec<u8>>,
}

/// The authority's host part: everything before the first colon.
pub open spec fn host_part(h: Seq<u8>) -> Seq<u8> {
    h.subrange(0, find_first(h, 58))
}

/// A forbidden entry matches a host when it equals it or contains it.
pub open spec fn entry_matches(fh: Seq<u8>, hp: Seq<u8>) -> bool {
    fh == hp || is_substring_of(hp, fh)
}

/// The host rule's answer: a header that does not decode is allowed; a decoded one
/// is allowed exactly when no forbidden entry matches its host part.
pub open spec fn host_allowed_spec(fhs: Seq<Seq<u8>>, host: Seq<u8>, host_decodes: bool) -> bool {
    host_decodes ==> forall|k: int|
        0 <= k < fhs.len() ==> !entry_matches(#[trigger] fhs[k], host_part(host))
}

/// The screen's rejection: some banned word occurs in the text.
pub open spec fn screen_rejects(bws: Seq<Seq<u8>>, text: Seq<u8>) -> bool {
    exists|k: int| 0 <= k < bws.len() && is_substring_of(bws[k], text)
}

impl Policy {
    /// Build the policy from the two policy file texts: each nonempty line is
    /// one entry, verbatim.
    pub fn from_texts(hosts_text: &Vec<u8>, words_text: &Vec<u8>) -> (p: Policy)
        ensures
            views_of(p.forbidden_hosts@) == policy_entries(hosts_text@),
            views_of(p.banned_words@) == policy_entries(words_text@),
            forall|k: int|
                0 <= k < p.forbidden_hosts@.len() ==> p.forbidden_hosts@[k]@.len() > 0,
            forall|k: int| 0 <= k < p.banned_words@.len() ==> p.banned_words@[k]@.len() > 0,
    {
        let forbidden_hosts = keep_nonempty(split_lines(hosts_text));
        let banned_words = keep_nonempty(split_lines(words_text));
        proof {
            lemma_nonempty_only(spec_lines(hosts_text@));
            lemma_nonempty_only(spec_lines(words_text@));
            assert forall|k: int|
                0 <= k < forbidden_hosts@.len() implies forbidden_hosts@[k]@.len() > 0 by {
                assert(views_of(forbidden_hosts@)[k] == forbidden_hosts@[k]@);
            }
            assert forall|k: int|
                0 <= k < banned_words@.len() implies banned_words@[k]@.len() > 0 by {
                assert(views_of(banned_words@)[k] == banned_words@[k]@);
            }
        }
        Policy { forbidden_hosts, banned_words }
    }

    /// The host rule. `host` is the request's `Host` header value and
    /// `host_decodes` says whether it decoded as text; the host part is what
    /// stands before the first colon.
    pub fn host_allowed(&self, host: &Vec<u8>, host_decodes: bool) -> (r: bool)
        ensures
            r == host_allowed_spec(views_of(self.forbidden_hosts@), host@, host_decodes),
    {
        if !host_decodes {
            return true;
        }
        proof {
            lemma_find_first(host@, 58);
        }
        let j = find_first_byte(host, 58);
        let hp = copy_range(host, 0, j);
        let ghost fhs = views_of(self.forbidden_hosts@);
        let mut k: usize = 0;
        while k < self.forbidden_hosts.len()
            invariant
                host_decodes,
                k <= self.forbidden_hosts@.len(),
                fhs == views_of(self.forbidden_hosts@),
                hp@ == host_part(host@),
                forall|m: int| 0 <= m < k ==> !entry_matches(fhs[m], host_part(host@)),
            decreases self.forbidden_hosts@.len() - k,
        {
            let fh = &self.forbidden_hosts[k];
            proof {
                assert(fhs[k as int] == fh@);
            }
            if bytes_eq(fh, &hp) || contains_bytes(fh, &hp) {
                proof {
                    assert(fhs.len() == self.forbidden_hosts@.len());
                    assert(entry_matches(fhs[k as int], host_part(host@)));
                    assert(!host_allowed_spec(fhs, host@, host_decodes)) by {
                        if host_allowed_spec(fhs, host@, host_decodes) {
                            assert(!entry_matches(fhs[k as int], host_part(host@)));
                            assert(false);
                        }
                    }
                }
                return false;
            }
            k = k + 1;
        }
        true
    }

    /// The content screen: allow the serialized response text exactly when no
    /// banned word occurs in it as a substring.
    pub fn response_allowed(&self, text: &Vec<u8>) -> (r: bool)
        ensures
            r == !screen_rejects(views_of(self.banned_words@), text@),
    {
        let ghost bws = views_of(self.banned_words@);
        let mut k: usize = 0;
        while k < self.banned_words.len()
            invariant
                k <= self.banned_words@.len(),
                bws == views_of(self.banned_words@),
                forall|m: int| 0 <= m < k ==> !is_substring_of(bws[m], text@),
            decreases self.banned_words@.len() - k,
        {
            proof {
                assert(bws[k as int] == self.banned_words@[k as int]@);
            }
            if contains_bytes(text, &self.banned_words[k]) {
                return false;
            }
            k = k + 1;
        }
        true
    }
}

} // verus!
