use vstd::prelude::*;

verus! {

/// The server address with every trailing `/` removed.
pub open spec fn trim_trailing_slashes(s: Seq<char>) -> Seq<char>
    decreases s.len(),
{
    if s.len() > 0 && s.last() == '/' {
        trim_trailing_slashes(s.drop_last())
    } else {
        s
    }
}

/// The key of a subscription: `<server without trailing slashes>/<topic>`.
pub open spec fn key_spec(server: Seq<char>, topic: Seq<char>) -> Seq<char> {
    trim_trailing_slashes(server) + seq!['/'] + topic
}

/// The stream endpoint of a subscription key: `<key>/sse`.
pub open spec fn sse_url_spec(key: Seq<char>) -> Seq<char> {
    key + seq!['/', 's', 's', 'e']
}

/// Two server addresses that differ only in trailing slashes give one key.
pub proof fn lemma_key_ignores_trailing_slash(server: Seq<char>, topic: Seq<char>)
    ensures
        key_spec(server.push('/'), topic) == key_spec(server, topic),
{
    assert(server.push('/').drop_last() =~= server);
}

/// The server address without its trailing slashes.
pub fn base_url(server: &str) -> (r: &str)
    ensures
        r@ == trim_trailing_slashes(server@),
{
    let n = server.unicode_len();
    let mut end: usize = n;
    assert(server@.subrange(0, n as int) =~= server@);
    while end > 0
        invariant
            end <= n,
            n == server@.len(),
            trim_trailing_slashes(server@) == trim_trailing_slashes(server@.subrange(0, end as int)),
        ensures
            end <= n,
            trim_trailing_slashes(server@) == trim_trailing_slashes(server@.subrange(0, end as int)),
            end == 0 || server@[end - 1] != '/',
        decreases end,
    {
        if server.get_char(end - 1) != '/' {
            break;
        }
        assert(server@.subrange(0, end as int).drop_last() =~= server@.subrange(0, end - 1));
        end = end - 1;
    }
    assert(server@.subrange(0, 0) =~= Seq::<char>::empty());
    server.substring_char(0, end)
}

/// The key under which a subscription to `topic` on `server` is registered.
pub fn subscription_key(server: &str, topic: &str) -> (r: String)
    ensures
        r@ == key_spec(server@, topic@),
{
    let mut k = String::from_str(base_url(server));
    proof {
        reveal_strlit("/");
    }
    k.append("/");
    k.append(topic);
    k
}

/// The stream endpoint of a subscription key.
pub fn sse_url(key: &str) -> (r: String)
    ensures
        r@ == sse_url_spec(key@),
{
    let mut u = String::from_str(key);
    proof {
        reveal_strlit("/sse");
    }
    u.append("/sse");
    u
}

} // verus!
