//! Configuration of the P2P network.
use vstd::prelude::*;

use crate::peer::strings_view;
use crate::text::push_char;

verus! {

/// Configuration for the p2p network
#[derive(Debug)]
pub struct P2PConfig {
    /// The port to listen on
    pub port: u16,
    /// Maximum number of connections
    pub max_connections: usize,
    /// Bootstrap nodes to connect to
    pub bootstrap_nodes: Vec<String>,
    /// Whether to enable discovery
    pub enable_discovery: bool,
    /// How often to ping peers (in seconds)
    pub ping_interval: u64,
    /// How long to wait before considering a peer disconnected (in seconds)
    pub connection_timeout: u64,
    /// Whether to enable encryption for messages
    pub enable_encryption: bool,
    /// Protocol version to use
    pub protocol_version: u32,
    /// Supported capabilities/features
    pub capabilities: Vec<String>,
}

/// What a [`P2PConfig`] holds, with its strings as character sequences.
pub struct P2PConfigView {
    pub port: u16,
    pub max_connections: usize,
    pub bootstrap_nodes: Seq<Seq<char>>,
    pub enable_discovery: bool,
    pub ping_interval: u64,
    pub connection_timeout: u64,
    pub enable_encryption: bool,
    pub protocol_version: u32,
    pub capabilities: Seq<Seq<char>>,
}

impl View for P2PConfig {
    type V = P2PConfigView;

    open spec fn view(&self) -> P2PConfigView {
        P2PConfigView {
            port: self.port,
            max_connections: self.max_connections,
            bootstrap_nodes: strings_view(self.bootstrap_nodes@),
            enable_discovery: self.enable_discovery,
            ping_interval: self.ping_interval,
            connection_timeout: self.connection_timeout,
            enable_encryption: self.enable_encryption,
            protocol_version: self.protocol_version,
            capabilities: strings_view(self.capabilities@),
        }
    }
}

/// The default configuration: port 30303, at most 50 connections, no bootstrap
/// nodes, discovery and encryption on, a ping every 30 s, a 120 s timeout,
/// protocol version 1 and the single capability "basic".
pub open spec fn default_config_view() -> P2PConfigView {
    P2PConfigView {
        port: 30303,
        max_connections: 50,
        bootstrap_nodes: Seq::empty(),
        enable_discovery: true,
        ping_interval: 30,
        connection_timeout: 120,
        enable_encryption: true,
        protocol_version: 1,
        capabilities: seq!["basic"@],
    }
}

impl Default for P2PConfig {
    fn default() -> (res: Self)
        ensures
            res@ == default_config_view(),
    {
        let basic = String::from_str("basic");
        let mut capabilities: Vec<String> = Vec::new();
        capabilities.push(basic);
        let res = P2PConfig {
            port: 30303,
            max_connections: 50,
            bootstrap_nodes: Vec::new(),
            enable_discovery: true,
            ping_interval: 30,
            connection_timeout: 120,
            enable_encryption: true,
            protocol_version: 1,
            capabilities,
        };
        assert(strings_view(res.capabilities@) =~= seq!["basic"@]);
        assert(strings_view(res.bootstrap_nodes@) =~= Seq::empty());
        res
    }
}

impl Clone for P2PConfig {
    fn clone(&self) -> (res: Self)
        ensures
            res@ == self@,
    {
        P2PConfig {
            port: self.port,
            max_connections: self.max_connections,
            bootstrap_nodes: crate::peer::clone_strings(&self.bootstrap_nodes),
            enable_discovery: self.enable_discovery,
            ping_interval: self.ping_interval,
            connection_timeout: self.connection_timeout,
            enable_encryption: self.enable_encryption,
            protocol_version: self.protocol_version,
            capabilities: crate::peer::clone_strings(&self.capabilities),
        }
    }
}

/// Whether a character has the Unicode `White_Space` property.
pub open spec fn is_unicode_whitespace(c: char) -> bool {
    let u = c as u32;
    ||| 0x9 <= u <= 0xd
    ||| u == 0x20
    ||| u == 0x85
    ||| u == 0xa0
    ||| u == 0x1680
    ||| 0x2000 <= u <= 0x200a
    ||| u == 0x2028
    ||| u == 0x2029
    ||| u == 0x202f
    ||| u == 0x205f
    ||| u == 0x3000
}

/// The characters without their leading whitespace.
pub open spec fn trim_start(s: Seq<char>) -> Seq<char>
    decreases s.len(),
{
    if s.len() > 0 && is_unicode_whitespace(s[0]) {
        trim_start(s.drop_first())
    } else {
        s
    }
}

/// The characters without their trailing whitespace.
pub open spec fn trim_end(s: Seq<char>) -> Seq<char>
    decreases s.len(),
{
    if s.len() > 0 && is_unicode_whitespace(s.last()) {
        trim_end(s.drop_last())
    } else {
        s
    }
}

/// The characters without leading and trailing whitespace.
pub open spec fn spec_trim(s: Seq<char>) -> Seq<char> {
    trim_end(trim_start(s))
}

/// `str::trim` followed by `to_string`.
///
/// Claims what the documentation of `str::trim` states: leading and trailing
/// characters with the Unicode `White_Space` property are removed.
#[verifier::external_body]
fn trim(s: &str) -> (res: String)
    ensures
        res@ == spec_trim(s@),
{
    s.trim().to_string()
}

/// The pieces of `s` between commas, in order; a string without commas is
/// one piece, and two adjacent commas enclose an empty piece.
pub open spec fn split_commas(s: Seq<char>) -> Seq<Seq<char>>
    decreases s.len(),
{
    if s.len() == 0 {
        seq![Seq::empty()]
    } else {
        let pieces = split_commas(s.drop_last());
        if s.last() == ',' {
            pieces.push(Seq::empty())
        } else {
            pieces.update(pieces.len() - 1, pieces.last().push(s.last()))
        }
    }
}

/// The pieces trimmed, leaving out those that are then empty.
pub open spec fn trimmed_nonempty(pieces: Seq<Seq<char>>) -> Seq<Seq<char>>
    decreases pieces.len(),
{
    if pieces.len() == 0 {
        Seq::empty()
    } else {
        let rest = trimmed_nonempty(pieces.drop_last());
        let t = spec_trim(pieces.last());
        if t.len() > 0 {
            rest.push(t)
        } else {
            rest
        }
    }
}

/// The addresses of a comma-separated list: each piece trimmed, empty ones left out.
pub open spec fn parse_address_list(s: Seq<char>) -> Seq<Seq<char>> {
    trimmed_nonempty(split_commas(s))
}

/// Trimmed text has no leading and no trailing whitespace.
pub proof fn lemma_trim_clean(s: Seq<char>)
    ensures
        spec_trim(s).len() > 0 ==> !is_unicode_whitespace(spec_trim(s)[0]) && !is_unicode_whitespace(
            spec_trim(s).last(),
        ),
{
    lemma_trim_start_clean(s);
    lemma_trim_end_keeps_start(trim_start(s));
}

proof fn lemma_trim_start_clean(s: Seq<char>)
    ensures
        trim_start(s).len() > 0 ==> !is_unicode_whitespace(trim_start(s)[0]),
    decreases s.len(),
{
    if s.len() > 0 && is_unicode_whitespace(s[0]) {
        lemma_trim_start_clean(s.drop_first());
    }
}

proof fn lemma_trim_end_keeps_start(s: Seq<char>)
    ensures
        trim_end(s).len() > 0 ==> trim_end(s)[0] == s[0] && !is_unicode_whitespace(trim_end(s).last()),
    decreases s.len(),
{
    if s.len() > 0 && is_unicode_whitespace(s.last()) {
        lemma_trim_end_keeps_start(s.drop_last());
    }
}

/// Every address parsed from a list is non-empty and has no leading or
/// trailing whitespace.
pub proof fn law_parsed_addresses_clean(s: Seq<char>)
    ensures
        forall|k: int|
            0 <= k < parse_address_list(s).len() ==> {
                let a = #[trigger] parse_address_list(s)[k];
                &&& a.len() > 0
                &&& !is_unicode_whitespace(a[0])
                &&& !is_unicode_whitespace(a.last())
            },
{
    lemma_trimmed_nonempty_clean(split_commas(s));
}

proof fn lemma_trimmed_nonempty_clean(pieces: Seq<Seq<char>>)
    ensures
        forall|k: int|
            0 <= k < trimmed_nonempty(pieces).len() ==> {
                let a = #[trigger] trimmed_nonempty(pieces)[k];
                &&& a.len() > 0
                &&& !is_unicode_whitespace(a[0])
                &&& !is_unicode_whitespace(a.last())
            },
    decreases pieces.len(),
{
    if pieces.len() > 0 {
        let rest = trimmed_nonempty(pieces.drop_last());
        let t = spec_trim(pieces.last());
        lemma_trimmed_nonempty_clean(pieces.drop_last());
        lemma_trim_clean(pieces.last());
        if t.len() > 0 {
            assert forall|k: int| 0 <= k < rest.len() implies #[trigger] rest.push(t)[k] == rest[k] by {}
        }
    }
}

/// Parse a comma-separated list of addresses: each is trimmed of
/// whitespace and empty entries are left out.
pub fn parse_bootstrap_nodes(list: &str) -> (res: Vec<String>)
    ensures
        strings_view(res@) == parse_address_list(list@),
{
    let n = list.unicode_len();
    let mut res: Vec<String> = Vec::new();
    let mut cur = String::new();
    let ghost mut done: Seq<Seq<char>> = Seq::empty();
    let mut i: usize = 0;
    assert(list@.take(0) =~= Seq::<char>::empty());
    while i < n
        invariant
            0 <= i <= n,
            n == list@.len(),
            split_commas(list@.take(i as int)) == done.push(cur@),
            strings_view(res@) == trimmed_nonempty(done),
        decreases n - i,
    {
        let c = list.get_char(i);
        let ghost t = list@.take(i as int + 1);
        assert(t.drop_last() =~= list@.take(i as int));
        assert(t.last() == c);
        if c == ',' {
            let piece = trim(cur.as_str());
            let ghost before = res@;
            let ghost old_done = done;
            proof {
                done = done.push(cur@);
                assert(done.drop_last() =~= old_done);
                assert(done.last() == cur@);
            }
            if piece.unicode_len() > 0 {
                res.push(piece);
                assert(strings_view(res@) =~= strings_view(before).push(piece@));
            }
            cur = String::new();
            assert(split_commas(t) =~= done.push(cur@));
        } else {
            let ghost old_cur = cur@;
            push_char(&mut cur, c);
            assert(split_commas(t) =~= done.push(cur@));
        }
        i = i + 1;
    }
    assert(list@.take(n as int) =~= list@);
    let piece = trim(cur.as_str());
    let ghost before = res@;
    if piece.unicode_len() > 0 {
        res.push(piece);
        assert(strings_view(res@) =~= strings_view(before).push(piece@));
    }
    assert(done.push(cur@).drop_last() =~= done);
    res
}

/// Create a P2P configuration from the node's options: the port, the
/// connection limit, the optional comma-separated bootstrap addresses and
/// the discovery flag; everything else keeps its default.
pub fn create_p2p_config(
    port: u16,
    max_connections: usize,
    bootstrap_nodes: Option<&str>,
    enable_discovery: bool,
) -> (res: P2PConfig)
    ensures
        res@ == (P2PConfigView {
            port,
            max_connections,
            bootstrap_nodes: match bootstrap_nodes {
                Some(list) => parse_address_list(list@),
                None => Seq::empty(),
            },
            enable_discovery,
            ..default_config_view()
        }),
{
    let nodes = match bootstrap_nodes {
        Some(list) => parse_bootstrap_nodes(list),
        None => Vec::new(),
    };
    assert(bootstrap_nodes is None ==> strings_view(nodes@) =~= Seq::<Seq<char>>::empty());
    let mut config = P2PConfig::default();
    config.port = port;
    config.max_connections = max_connections;
    config.bootstrap_nodes = nodes;
    config.enable_discovery = enable_discovery;
    config
}

} // verus!

verus! {

/// Whether no character of `s` is a comma.
pub open spec fn comma_free(s: Seq<char>) -> bool {
    forall|i: int| 0 <= i < s.len() ==> #[trigger] s[i] != ','
}

proof fn lemma_split_pieces_comma_free(s: Seq<char>)
    ensures
        forall|k: int| 0 <= k < split_commas(s).len() ==> comma_free(#[trigger] split_commas(s)[k]),
        split_commas(s).len() > 0,
    decreases s.len(),
{
    if s.len() > 0 {
        let d = s.drop_last();
        lemma_split_pieces_comma_free(d);
        let pieces = split_commas(d);
        let all = split_commas(s);
        assert forall|k: int| 0 <= k < all.len() implies comma_free(#[trigger] all[k]) by {
            if s.last() == ',' {
                if k < pieces.len() {
                    assert(all[k] == pieces[k]);
                } else {
                    assert(all[k] =~= Seq::<char>::empty());
                }
            } else {
                if k == pieces.len() - 1 {
                    let p = pieces.last().push(s.last());
                    assert(all[k] == p);
                    assert(comma_free(pieces.last()));
                    assert forall|i: int| 0 <= i < p.len() implies #[trigger] p[i] != ',' by {
                        if i < pieces.last().len() {
                            assert(p[i] == pieces.last()[i]);
                        }
                    }
                } else {
                    assert(all[k] == pieces[k]);
                }
            }
        }
    }
}

proof fn lemma_trim_start_comma_free(s: Seq<char>)
    requires
        comma_free(s),
    ensures
        comma_free(trim_start(s)),
    decreases s.len(),
{
    if s.len() > 0 && is_unicode_whitespace(s[0]) {
        let t = s.drop_first();
        assert forall|i: int| 0 <= i < t.len() implies #[trigger] t[i] != ',' by {
            assert(t[i] == s[i + 1]);
        }
        lemma_trim_start_comma_free(t);
    }
}

proof fn lemma_trim_end_comma_free(s: Seq<char>)
    requires
        comma_free(s),
    ensures
        comma_free(trim_end(s)),
    decreases s.len(),
{
    if s.len() > 0 && is_unicode_whitespace(s.last()) {
        let t = s.drop_last();
        assert forall|i: int| 0 <= i < t.len() implies #[trigger] t[i] != ',' by {
            assert(t[i] == s[i]);
        }
        lemma_trim_end_comma_free(t);
    }
}

proof fn lemma_trimmed_comma_free(pieces: Seq<Seq<char>>)
    requires
        forall|k: int| 0 <= k < pieces.len() ==> comma_free(#[trigger] pieces[k]),
    ensures
        forall|k: int| 0 <= k < trimmed_nonempty(pieces).len() ==> comma_free(#[trigger] trimmed_nonempty(pieces)[k]),
    decreases pieces.len(),
{
    if pieces.len() > 0 {
        let d = pieces.drop_last();
        assert forall|k: int| 0 <= k < d.len() implies comma_free(#[trigger] d[k]) by {
            assert(d[k] == pieces[k]);
        }
        lemma_trimmed_comma_free(d);
        let rest = trimmed_nonempty(d);
        let t = spec_trim(pieces.last());
        assert(comma_free(pieces[pieces.len() - 1]));
        lemma_trim_start_comma_free(pieces.last());
        lemma_trim_end_comma_free(trim_start(pieces.last()));
        let all = trimmed_nonempty(pieces);
        assert forall|k: int| 0 <= k < all.len() implies comma_free(#[trigger] all[k]) by {
            if k < rest.len() {
                assert(all[k] == rest[k]);
            } else {
                assert(all[k] == t);
            }
        }
    }
}

/// No parsed address holds a comma: the list is split at every comma.
pub proof fn law_parsed_addresses_comma_free(s: Seq<char>)
    ensures
        forall|k: int| 0 <= k < parse_address_list(s).len() ==> comma_free(#[trigger] parse_address_list(s)[k]),
{
    lemma_split_pieces_comma_free(s);
    lemma_trimmed_comma_free(split_commas(s));
}

} // verus!

verus! {

proof fn lemma_split_nonempty_list(s: Seq<char>)
    ensures
        split_commas(s).len() > 0,
    decreases s.len(),
{
    if s.len() > 0 {
        lemma_split_nonempty_list(s.drop_last());
    }
}

proof fn lemma_split_concat(a: Seq<char>, b: Seq<char>)
    ensures
        split_commas(a.push(',') + b) == split_commas(a) + split_commas(b),
    decreases b.len(),
{
    let x = a.push(',') + b;
    if b.len() == 0 {
        assert(x =~= a.push(','));
        assert(x.drop_last() =~= a);
        assert(split_commas(b) =~= seq![Seq::<char>::empty()]);
        assert(split_commas(x) =~= split_commas(a) + split_commas(b));
    } else {
        let bd = b.drop_last();
        lemma_split_concat(a, bd);
        assert(x.drop_last() =~= a.push(',') + bd);
        assert(x.last() == b.last());
        lemma_split_nonempty_list(bd);
        let p = split_commas(a);
        let q = split_commas(bd);
        if b.last() == ',' {
            assert(split_commas(x) =~= p + q.push(Seq::empty()));
        } else {
            assert((p + q).last() == q.last());
            assert(split_commas(x) =~= p + q.update(q.len() - 1, q.last().push(b.last())));
        }
    }
}

proof fn lemma_trimmed_concat(p: Seq<Seq<char>>, q: Seq<Seq<char>>)
    ensures
        trimmed_nonempty(p + q) == trimmed_nonempty(p) + trimmed_nonempty(q),
    decreases q.len(),
{
    if q.len() == 0 {
        assert(p + q =~= p);
        assert(trimmed_nonempty(p) + trimmed_nonempty(q) =~= trimmed_nonempty(p));
    } else {
        let qd = q.drop_last();
        lemma_trimmed_concat(p, qd);
        assert((p + q).drop_last() =~= p + qd);
        assert((p + q).last() == q.last());
        let t = spec_trim(q.last());
        if t.len() > 0 {
            assert(trimmed_nonempty(p + q) =~= trimmed_nonempty(p) + trimmed_nonempty(qd).push(t));
        } else {
            assert(trimmed_nonempty(p + q) =~= trimmed_nonempty(p) + trimmed_nonempty(qd));
        }
    }
}

/// A comma splits a bootstrap list: the addresses of `a`, a comma, then `b`
/// are the addresses of `a` followed by those of `b`.
pub proof fn law_comma_separates_addresses(a: Seq<char>, b: Seq<char>)
    ensures
        parse_address_list(a.push(',') + b) == parse_address_list(a) + parse_address_list(b),
{
    lemma_split_concat(a, b);
    lemma_trimmed_concat(split_commas(a), split_commas(b));
}

/// A list without commas holds one address, the text trimmed, unless that is empty.
pub proof fn law_single_address(s: Seq<char>)
    requires
        comma_free(s),
    ensures
        parse_address_list(s) == if spec_trim(s).len() > 0 {
            seq![spec_trim(s)]
        } else {
            Seq::<Seq<char>>::empty()
        },
{
    lemma_split_comma_free(s);
    let one = seq![s];
    assert(one.drop_last() =~= Seq::<Seq<char>>::empty());
    assert(one.last() == s);
    assert(trimmed_nonempty(Seq::<Seq<char>>::empty()) == Seq::<Seq<char>>::empty());
    assert(trimmed_nonempty(one.drop_last()) == Seq::<Seq<char>>::empty());
    if spec_trim(s).len() > 0 {
        assert(trimmed_nonempty(one) == Seq::<Seq<char>>::empty().push(spec_trim(s)));
        assert(Seq::<Seq<char>>::empty().push(spec_trim(s)) =~= seq![spec_trim(s)]);
    } else {
        assert(trimmed_nonempty(one) == Seq::<Seq<char>>::empty());
    }
}

proof fn lemma_split_comma_free(s: Seq<char>)
    requires
        comma_free(s),
    ensures
        split_commas(s) == seq![s],
    decreases s.len(),
{
    if s.len() == 0 {
        assert(s =~= Seq::<char>::empty());
    } else {
        let d = s.drop_last();
        assert forall|i: int| 0 <= i < d.len() implies #[trigger] d[i] != ',' by {
            assert(d[i] == s[i]);
        }
        lemma_split_comma_free(d);
        assert(s.last() != ',') by {
            assert(s[s.len() - 1] != ',');
        }
        assert(d.push(s.last()) =~= s);
        assert(split_commas(s) =~= seq![s]);
    }
}

} // verus!

verus! {

proof fn lemma_trim_start_skips(s: Seq<char>) -> (k: int)
    ensures
        0 <= k <= s.len(),
        trim_start(s) == s.subrange(k, s.len() as int),
        forall|i: int| 0 <= i < k ==> is_unicode_whitespace(#[trigger] s[i]),
    decreases s.len(),
{
    if s.len() > 0 && is_unicode_whitespace(s[0]) {
        let t = s.drop_first();
        let k1 = lemma_trim_start_skips(t);
        assert(t.subrange(k1, t.len() as int) =~= s.subrange(k1 + 1, s.len() as int));
        assert forall|i: int| 0 <= i < k1 + 1 implies is_unicode_whitespace(#[trigger] s[i]) by {
            if i > 0 {
                assert(s[i] == t[i - 1]);
            }
        }
        k1 + 1
    } else {
        assert(s.subrange(0, s.len() as int) =~= s);
        0
    }
}

proof fn lemma_trim_end_takes(s: Seq<char>) -> (m: int)
    ensures
        0 <= m <= s.len(),
        trim_end(s) == s.subrange(0, m),
        forall|i: int| m <= i < s.len() ==> is_unicode_whitespace(#[trigger] s[i]),
    decreases s.len(),
{
    if s.len() > 0 && is_unicode_whitespace(s.last()) {
        let t = s.drop_last();
        let m1 = lemma_trim_end_takes(t);
        assert(t.subrange(0, m1) =~= s.subrange(0, m1));
        assert forall|i: int| m1 <= i < s.len() implies is_unicode_whitespace(#[trigger] s[i]) by {
            if i < t.len() {
                assert(s[i] == t[i]);
            }
        }
        m1
    } else {
        assert(s.subrange(0, s.len() as int) =~= s);
        s.len() as int
    }
}

/// Trimming removes only whitespace, and only from the two ends: the result
/// is a stretch of the text, and every character before or after it is
/// whitespace.
pub proof fn law_trim_removes_only_outer_whitespace(s: Seq<char>)
    ensures
        exists|a: int, b: int|
            #![trigger s.subrange(a, b)]
            0 <= a <= b <= s.len() && spec_trim(s) == s.subrange(a, b) && (forall|i: int|
                0 <= i < a ==> is_unicode_whitespace(#[trigger] s[i])) && (forall|i: int|
                b <= i < s.len() ==> is_unicode_whitespace(#[trigger] s[i])),
{
    let k = lemma_trim_start_skips(s);
    let t = trim_start(s);
    let m = lemma_trim_end_takes(t);
    assert(t.subrange(0, m) =~= s.subrange(k, k + m));
    assert forall|i: int| k + m <= i < s.len() implies is_unicode_whitespace(#[trigger] s[i]) by {
        assert(t[i - k] == s[i]);
    }
    assert(spec_trim(s) == s.subrange(k, k + m));
}

} // verus!
