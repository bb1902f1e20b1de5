use vstd::prelude::*;

use crate::config::{has_name, sentinel, sorted_by_name, Config, ServerConfig};
use crate::error::StoreError;
use vstd::string::StringExecFns;
use crate::order::{
    lemma_name_lt_irreflexive, lemma_name_lt_total, lemma_name_lt_transitive, name_less, name_lt,
    same_name,
};

verus! {

/// Whether `k` is where a profile named `name` goes among `servers`: after
/// every smaller name and before every larger one.
pub open spec fn insertion_point(servers: Seq<ServerConfig>, name: Seq<char>, k: int) -> bool {
    &&& 0 <= k <= servers.len()
    &&& forall|j: int| 0 <= j < k ==> name_lt(#[trigger] servers[j].name@, name)
    &&& forall|j: int| k <= j < servers.len() ==> name_lt(name, #[trigger] servers[j].name@)
}

/// The store after removing the profile at `i`: `current` moves to the
/// smallest remaining name, or to the sentinel, if it named that profile.
pub open spec fn removed(before: Config, i: int, after: Config) -> bool {
    &&& after.servers@ == before.servers@.remove(i)
    &&& if before.current@ != before.servers@[i].name@ {
        after.current@ == before.current@
    } else if after.servers@.len() == 0 {
        after.current@ == sentinel()
    } else {
        after.current@ == after.servers@[0].name@
    }
}

/// What listing the store shows: each name, in store order, and whether it
/// is the active one.
pub open spec fn listing(config: Config) -> Seq<(Seq<char>, bool)> {
    Seq::new(
        config.servers@.len(),
        |i: int| (config.servers@[i].name@, config.servers@[i].name@ == config.current@),
    )
}

/// The operator's answer to a confirmation question.
#[derive(Clone, Copy, Debug, PartialEq, Eq, Structural)]
pub enum Confirmation {
    Yes,
    No,
    NotUnderstood,
}

/// `DuplicateName` where a profile is already named `name`.
pub fn check_name_free(config: &Config, name: &str) -> (r: Result<(), StoreError>)
    ensures
        r is Err <==> has_name(config.servers@, name@),
        r matches Err(e) ==> e == StoreError::DuplicateName,
{
    if config.contains(name) {
        Err(StoreError::DuplicateName)
    } else {
        Ok(())
    }
}

/// Adds `server` in name order and makes it the active profile; fails with
/// `DuplicateName`, changing nothing, where its name is taken.
pub fn add(config: &mut Config, server: ServerConfig) -> (r: Result<(), StoreError>)
    requires
        old(config).wf(),
    ensures
        has_name(old(config).servers@, server.name@) ==> r == Err::<(), StoreError>(
            StoreError::DuplicateName,
        ) && *final(config) == *old(config),
        !has_name(old(config).servers@, server.name@) ==> {
            &&& r is Ok
            &&& final(config).wf()
            &&& final(config).points_well()
            &&& final(config).current@ == server.name@
            &&& exists|k: int|
                insertion_point(old(config).servers@, server.name@, k)
                    && final(config).servers@ == old(config).servers@.insert(k, server)
        },
{
    if config.contains(server.name.as_str()) {
        return Err(StoreError::DuplicateName);
    }
    let ghost before = config.servers@;
    let mut k: usize = 0;
    while k < config.servers.len() && name_less(config.servers[k].name.as_str(), server.name.as_str())
        invariant
            config.servers@ == before,
            sorted_by_name(before),
            !has_name(before, server.name@),
            k <= before.len(),
            forall|j: int| 0 <= j < k ==> name_lt(#[trigger] before[j].name@, server.name@),
        decreases before.len() - k,
    {
        k = k + 1;
    }
    proof {
        assert forall|j: int| k <= j < before.len() implies name_lt(
            server.name@,
            #[trigger] before[j].name@,
        ) by {
            assert(before[k as int].name@ != server.name@);
            lemma_name_lt_total(before[k as int].name@, server.name@);
            if j > k {
                lemma_name_lt_transitive(server.name@, before[k as int].name@, before[j].name@);
            }
        }
    }
    let ghost s = server;
    config.current = server.name.clone();
    config.servers.insert(k, server);
    proof {
        assert(insertion_point(before, s.name@, k as int));
        lemma_add_law(*old(config), s, *config, k as int);
    }
    Ok(())
}

/// Makes the profile named `name` the active one; fails with
/// `UnknownProfile`, changing nothing, where there is none.
pub fn switch_to(config: &mut Config, name: &str) -> (r: Result<(), StoreError>)
    requires
        old(config).wf(),
    ensures
        !has_name(old(config).servers@, name@) ==> r == Err::<(), StoreError>(
            StoreError::UnknownProfile,
        ) && *final(config) == *old(config),
        has_name(old(config).servers@, name@) ==> {
            &&& r is Ok
            &&& final(config).wf()
            &&& final(config).points_well()
            &&& final(config).current@ == name@
            &&& final(config).servers == old(config).servers
        },
{
    if !config.contains(name) {
        return Err(StoreError::UnknownProfile);
    }
    config.current = name.to_owned();
    Ok(())
}

/// Removes the profile named `name` where the answer is `Yes`; any other
/// answer changes nothing. Fails with `UnknownProfile`, changing nothing,
/// where no profile has that name.
pub fn rm(config: &mut Config, name: &str, answer: Confirmation) -> (r: Result<(), StoreError>)
    requires
        old(config).wf(),
    ensures
        !has_name(old(config).servers@, name@) ==> r == Err::<(), StoreError>(
            StoreError::UnknownProfile,
        ) && *final(config) == *old(config),
        has_name(old(config).servers@, name@) && answer != Confirmation::Yes ==> r is Ok
            && *final(config) == *old(config),
        has_name(old(config).servers@, name@) && answer == Confirmation::Yes ==> {
            &&& r is Ok
            &&& final(config).wf()
            &&& (old(config).points_well() ==> final(config).points_well())
            &&& exists|i: int|
                0 <= i < old(config).servers@.len() && old(config).servers@[i].name@ == name@
                    && removed(*old(config), i, *final(config))
        },
{
    let index = match Config::find(&config.servers, name) {
        Some(i) => i,
        None => return Err(StoreError::UnknownProfile),
    };
    match answer {
        Confirmation::Yes => {},
        _ => return Ok(()),
    }
    let ghost old_config = *config;
    let was_current = same_name(config.current.as_str(), name);
    let _gone = config.servers.remove(index);
    if was_current {
        if config.servers.len() > 0 {
            config.current = config.servers[0].name.clone();
        } else {
            let none = "none".to_owned();
            proof {
                reveal_strlit("none");
            }
            assert(none@ =~= sentinel());
            config.current = none;
        }
    }
    assert(removed(old_config, index as int, *config));
    proof {
        lemma_removed_wf(old_config, index as int, *config);
    }
    Ok(())
}

/// The name of each profile, in store order, and whether it is the active one.
pub fn list(config: &Config) -> (r: Vec<(String, bool)>)
    ensures
        r@.len() == listing(*config).len(),
        forall|i: int|
            0 <= i < r@.len() ==> (#[trigger] r@[i]).0@ == listing(*config)[i].0 && r@[i].1
                == listing(*config)[i].1,
{
    let mut out: Vec<(String, bool)> = Vec::new();
    let mut i: usize = 0;
    while i < config.servers.len()
        invariant
            i <= config.servers@.len(),
            out@.len() == i,
            forall|j: int|
                0 <= j < i ==> (#[trigger] out@[j]).0@ == config.servers@[j].name@ && out@[j].1 == (
                config.servers@[j].name@ == config.current@),
        decreases config.servers@.len() - i,
    {
        let name = config.servers[i].name.clone();
        let active = same_name(name.as_str(), config.current.as_str());
        out.push((name, active));
        i = i + 1;
    }
    out
}


/// The answer that a reply to a yes/no question gives: exactly "y" is
/// `Yes`, exactly "n" is `No`, anything else is not understood.
pub fn confirmation(reply: &str) -> (r: Confirmation)
    ensures
        reply@ == seq!['y'] ==> r == Confirmation::Yes,
        reply@ == seq!['n'] ==> r == Confirmation::No,
        reply@ != seq!['y'] && reply@ != seq!['n'] ==> r == Confirmation::NotUnderstood,
{
    proof {
        reveal_strlit("y");
        reveal_strlit("n");
    }
    assert("y"@ =~= seq!['y']);
    assert("n"@ =~= seq!['n']);
    assert(seq!['y'][0] != seq!['n'][0]);
    if same_name(reply, "y") {
        Confirmation::Yes
    } else if same_name(reply, "n") {
        Confirmation::No
    } else {
        Confirmation::NotUnderstood
    }
}

/// Whether every character of `s` is an ASCII decimal digit.
pub open spec fn all_digits(s: Seq<char>) -> bool {
    forall|i: int| 0 <= i < s.len() ==> '0' <= #[trigger] s[i] <= '9'
}

/// The number that the decimal digits `s` spell.
pub open spec fn digits_value(s: Seq<char>) -> int
    decreases s.len(),
{
    if s.len() == 0 {
        0
    } else {
        digits_value(s.drop_last()) * 10 + (s.last() as int - '0' as int)
    }
}

/// The unsigned 32-bit number that `s` writes: an optional `+`, then one
/// or more decimal digits, of a value that fits.
pub open spec fn decimal_u32(s: Seq<char>) -> Option<u32> {
    let d = if s.len() > 0 && s[0] == '+' {
        s.drop_first()
    } else {
        s
    };
    if d.len() > 0 && all_digits(d) && digits_value(d) <= u32::MAX {
        Some(digits_value(d) as u32)
    } else {
        None
    }
}

/// Relies on `<u32 as FromStr>::from_str`: an optional `+` and decimal
/// digits of a value that fits, anything else an error.
#[verifier::external_body]
fn parse_u32(s: &str) -> (r: Option<u32>)
    ensures
        r == decimal_u32(s@),
{
    s.parse::<u32>().ok()
}

/// Reads a port number: `InvalidPort` unless `text` is an unsigned 32-bit
/// decimal number.
pub fn parse_port(text: &str) -> (r: Result<u32, StoreError>)
    ensures
        decimal_u32(text@) matches Some(p) ==> r == Ok::<u32, StoreError>(p),
        decimal_u32(text@) is None ==> r == Err::<u32, StoreError>(StoreError::InvalidPort),
{
    match parse_u32(text) {
        Some(p) => Ok(p),
        None => Err(StoreError::InvalidPort),
    }
}

/// A profile from the details that the operator gave for it; fails with
/// `InvalidPort` where the port does not read as a number.
pub fn new_profile(
    name: &str,
    host: String,
    port: &str,
    user: String,
    password: String,
    search_base: String,
) -> (r: Result<ServerConfig, StoreError>)
    ensures
        decimal_u32(port@) is None ==> r == Err::<ServerConfig, StoreError>(StoreError::InvalidPort),
        decimal_u32(port@) matches Some(p) ==> r == Ok::<ServerConfig, StoreError>(
            ServerConfig { host, name: r->Ok_0.name, password, port: p, search_base, user },
        ) && r->Ok_0.name@ == name@,
{
    let port = parse_port(port)?;
    Ok(ServerConfig { host, name: name.to_owned(), password, port, search_base, user })
}

/// After a profile is added to a well-formed store, the active profile is
/// the new one, the listing shows exactly one entry of its name, marked
/// active, and the listing's names ascend.
pub proof fn lemma_add_law(before: Config, server: ServerConfig, after: Config, k: int)
    requires
        before.wf(),
        insertion_point(before.servers@, server.name@, k),
        after.servers@ == before.servers@.insert(k, server),
        after.current@ == server.name@,
    ensures
        after.wf(),
        after.points_well(),
        has_name(after.servers@, after.current@),
        listing(after)[k].0 == server.name@ && listing(after)[k].1,
        forall|j: int|
            0 <= j < listing(after).len() && j != k ==> #[trigger] listing(after)[j].0 != server.name@,
        forall|i: int, j: int|
            0 <= i < j < listing(after).len() ==> name_lt(
                #[trigger] listing(after)[i].0,
                #[trigger] listing(after)[j].0,
            ),
{
    let a = after.servers@;
    let b = before.servers@;
    assert(a[k] == server);
    assert forall|x: int, y: int| 0 <= x < y < a.len() implies name_lt(
        #[trigger] a[x].name@,
        #[trigger] a[y].name@,
    ) by {
        if y < k {
            assert(a[x] == b[x] && a[y] == b[y]);
        } else if y == k {
            assert(a[x] == b[x]);
        } else if x == k {
            assert(a[y] == b[y - 1]);
        } else if x < k {
            assert(a[x] == b[x] && a[y] == b[y - 1]);
            lemma_name_lt_transitive(b[x].name@, server.name@, b[y - 1].name@);
        } else {
            assert(a[x] == b[x - 1] && a[y] == b[y - 1]);
        }
    }
    assert forall|j: int| 0 <= j < listing(after).len() && j != k implies #[trigger] listing(
        after,
    )[j].0 != server.name@ by {
        if j < k {
            lemma_name_lt_irreflexive(server.name@);
            assert(name_lt(a[j].name@, a[k].name@));
        } else {
            lemma_name_lt_irreflexive(server.name@);
            assert(name_lt(a[k].name@, a[j].name@));
        }
    }
}

/// Removing the active profile from a well-formed store makes the smallest
/// remaining name active, or the sentinel where none remains.
pub proof fn lemma_remove_current_law(before: Config, i: int, after: Config)
    requires
        before.wf(),
        0 <= i < before.servers@.len(),
        before.servers@[i].name@ == before.current@,
        removed(before, i, after),
    ensures
        after.wf(),
        after.points_well(),
        after.servers@.len() == 0 ==> after.current@ == sentinel(),
        after.servers@.len() > 0 ==> has_name(after.servers@, after.current@) && forall|j: int|
            0 <= j < after.servers@.len() && #[trigger] after.servers@[j].name@ != after.current@
                ==> name_lt(after.current@, after.servers@[j].name@),
{
    lemma_removed_wf(before, i, after);
    if after.servers@.len() > 0 {
        assert(after.servers@[0].name@ == after.current@);
    }
}

/// Removing a profile keeps the names sorted, and keeps `current` pointing
/// well where it did.
pub proof fn lemma_removed_wf(before: Config, i: int, after: Config)
    requires
        before.wf(),
        0 <= i < before.servers@.len(),
        removed(before, i, after),
    ensures
        after.wf(),
        before.points_well() ==> after.points_well(),
{
    let b = before.servers@;
    let a = after.servers@;
    assert forall|x: int, y: int| 0 <= x < y < a.len() implies name_lt(
        #[trigger] a[x].name@,
        #[trigger] a[y].name@,
    ) by {
        if y < i {
            assert(a[x] == b[x] && a[y] == b[y]);
        } else if x < i {
            assert(a[x] == b[x] && a[y] == b[y + 1]);
        } else {
            assert(a[x] == b[x + 1] && a[y] == b[y + 1]);
        }
    }
    if before.current@ != b[i].name@ {
        if before.points_well() {
            lemma_kept_pointer(before, i, after);
        }
    } else if a.len() > 0 {
        assert(a[0].name@ == after.current@);
    }
}

/// Removing a profile that `current` does not name keeps `current` pointing
/// at a profile.
proof fn lemma_kept_pointer(before: Config, i: int, after: Config)
    requires
        0 <= i < before.servers@.len(),
        before.points_well(),
        before.current@ != before.servers@[i].name@,
        removed(before, i, after),
    ensures
        after.points_well(),
{
    let b = before.servers@;
    let a = after.servers@;
    let c = choose|c: int| 0 <= c < b.len() && #[trigger] b[c].name@ == before.current@;
    assert(c != i);
    if c < i {
        assert(a[c] == b[c]);
    } else {
        assert(a[c - 1] == b[c]);
    }
}

/// The decimal digits of `n`, without leading zeros.
pub open spec fn decimal_of(n: nat) -> Seq<char>
    decreases n,
{
    if n < 10 {
        seq![('0' as u8 + n as u8) as char]
    } else {
        decimal_of(n / 10) + seq![('0' as u8 + (n % 10) as u8) as char]
    }
}

/// The address of a directory server reached over TLS.
pub open spec fn url_of(host: Seq<char>, port: u32) -> Seq<char> {
    seq!['l', 'd', 'a', 'p', 's', ':', '/', '/'] + host + seq![':'] + decimal_of(port as nat)
}

/// Relies on `<u32 as ToString>::to_string`, that is `Display` of `u32`:
/// its decimal digits without leading zeros.
#[verifier::external_body]
fn decimal_string(n: u32) -> (r: String)
    ensures
        r@ == decimal_of(n as nat),
{
    n.to_string()
}

/// The `ldaps://host:port` address at which the profile's server is reached.
pub fn server_url(server: &ServerConfig) -> (r: String)
    ensures
        r@ == url_of(server.host@, server.port),
{
    let mut url = "ldaps://".to_owned();
    url.append(server.host.as_str());
    url.append(":");
    let digits = decimal_string(server.port);
    url.append(digits.as_str());
    proof {
        reveal_strlit("ldaps://");
        reveal_strlit(":");
    }
    assert("ldaps://"@ =~= seq!['l', 'd', 'a', 'p', 's', ':', '/', '/']);
    assert(":"@ =~= seq![':']);
    url
}

} // verus!
