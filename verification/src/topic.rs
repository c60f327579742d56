use vstd::prelude::*;
use vstd::string::StrSliceExecFns;
use vstd::string::StringExecFns;

verus! {

/// First index at or after `i` where `s` holds `c`; `s.len()` if none.
pub open spec fn find_from(s: Seq<char>, c: char, i: int) -> int
    decreases s.len() - i,
{
    if i < 0 || i >= s.len() {
        s.len() as int
    } else if s[i] == c {
        i
    } else {
        find_from(s, c, i + 1)
    }
}

proof fn lemma_find_from_range(s: Seq<char>, c: char, i: int)
    requires
        0 <= i <= s.len(),
    ensures
        i <= find_from(s, c, i) <= s.len(),
    decreases s.len() - i,
{
    if i < s.len() && s[i] != c {
        lemma_find_from_range(s, c, i + 1);
    }
}

fn find_char(s: &str, c: char, start: usize) -> (r: usize)
    requires
        start <= s@.len(),
    ensures
        r == find_from(s@, c, start as int),
        start <= r <= s@.len(),
{
    let n: usize = s.unicode_len();
    let mut i: usize = start;
    while i < n
        invariant
            start <= i <= n,
            n == s@.len(),
            find_from(s@, c, start as int) == find_from(s@, c, i as int),
        decreases n - i,
    {
        let ch = s.get_char(i);
        if ch == c {
            return i;
        }
        i = i + 1;
    }
    i
}

/// A bus topic split into its two levels: the fixed root and the device
/// identifier, as in `online/<device>`.
pub struct Topic {
    pub root: String,
    pub device_id: String,
}

impl Topic {
    /// Splits a topic string at its slashes: the root is everything before
    /// the first `/`, the device identifier is the segment after it. The
    /// topic must hold at least one `/`, as every device-scoped topic does.
    pub fn new(topic: &str) -> (t: Self)
        requires
            find_from(topic@, '/', 0) < topic@.len(),
        ensures
            t.root@ == topic@.subrange(0, find_from(topic@, '/', 0)),
            t.device_id@ == topic@.subrange(
                find_from(topic@, '/', 0) + 1,
                find_from(topic@, '/', find_from(topic@, '/', 0) + 1),
            ),
    {
        let n: usize = topic.unicode_len();
        let first = find_char(topic, '/', 0);
        assert(first < n);
        let second = find_char(topic, '/', first + 1);
        proof {
            lemma_find_from_range(topic@, '/', first as int + 1);
        }
        Self {
            root: topic.substring_char(0, first).to_owned(),
            device_id: topic.substring_char(first + 1, second).to_owned(),
        }
    }

    /// Renders the topic back to its wire form `root/device`.
    pub fn topic_string(&self) -> (s: String)
        ensures
            s@ == self.root@ + seq!['/'] + self.device_id@,
    {
        proof {
            reveal_strlit("/");
        }
        let mut s = self.root.clone();
        s.append("/");
        s.append(self.device_id.as_str());
        proof {
            assert(s@ =~= self.root@ + seq!['/'] + self.device_id@);
        }
        s
    }
}

} // verus!
