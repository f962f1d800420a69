//! Builders for the textual metadata carried by each minted token: the
//! media and JSON file URIs under the collection's IPFS directory and the
//! `metadata:...;tags:...` attribute string.

use vstd::prelude::*;

verus! {

/// The decimal digit character for `d` in `0..=9`.
pub open spec fn digit_char(d: nat) -> char {
    if d == 0 {
        '0'
    } else if d == 1 {
        '1'
    } else if d == 2 {
        '2'
    } else if d == 3 {
        '3'
    } else if d == 4 {
        '4'
    } else if d == 5 {
        '5'
    } else if d == 6 {
        '6'
    } else if d == 7 {
        '7'
    } else if d == 8 {
        '8'
    } else {
        '9'
    }
}

/// The decimal representation of `n`, most significant digit first, with no
/// leading zeroes (a single `'0'` for zero).
pub open spec fn dec_rep(n: nat) -> Seq<char>
    decreases n,
{
    if n < 10 {
        seq![digit_char(n)]
    } else {
        dec_rep(n / 10).push(digit_char(n % 10))
    }
}

/// The one-character string for the digit `d`.
fn digit_str(d: u64) -> (r: &'static str)
    requires
        d < 10,
    ensures
        r@ == seq![digit_char(d as nat)],
{
    proof {
        reveal_strlit("0");
        reveal_strlit("1");
        reveal_strlit("2");
        reveal_strlit("3");
        reveal_strlit("4");
        reveal_strlit("5");
        reveal_strlit("6");
        reveal_strlit("7");
        reveal_strlit("8");
        reveal_strlit("9");
    }
    if d == 0 {
        "0"
    } else if d == 1 {
        "1"
    } else if d == 2 {
        "2"
    } else if d == 3 {
        "3"
    } else if d == 4 {
        "4"
    } else if d == 5 {
        "5"
    } else if d == 6 {
        "6"
    } else if d == 7 {
        "7"
    } else if d == 8 {
        "8"
    } else {
        "9"
    }
}

/// Renders `n` in decimal.
pub fn u64_dec_string(n: u64) -> (r: String)
    ensures
        r@ == dec_rep(n as nat),
    decreases n,
{
    if n < 10 {
        let mut s = String::new();
        s.append(digit_str(n));
        proof {
            assert(s@ =~= dec_rep(n as nat));
        }
        s
    } else {
        let mut s = u64_dec_string(n / 10);
        s.append(digit_str(n % 10));
        proof {
            assert(s@ =~= dec_rep(n as nat));
        }
        s
    }
}

/// The directory every collection's files live under.
pub open spec fn ipfs_base() -> Seq<char> {
    "https://ipfs.io/ipfs/"@
}

/// `<base>/<hash>/<id>.<media>`: the URI of one token's main media file.
pub open spec fn main_file_uri(hash: Seq<char>, nft_id: nat, media: Seq<char>) -> Seq<char> {
    ipfs_base() + hash + "/"@ + dec_rep(nft_id) + "."@ + media
}

/// `<base>/<hash>/<id>.json`: the URI of one token's JSON metadata file.
pub open spec fn json_file_uri(hash: Seq<char>, nft_id: nat) -> Seq<char> {
    ipfs_base() + hash + "/"@ + dec_rep(nft_id) + ".json"@
}

/// `<base>/<hash>/collection.json`: the URI of the collection's JSON file.
pub open spec fn collection_json_uri(hash: Seq<char>) -> Seq<char> {
    ipfs_base() + hash + "/collection.json"@
}

/// The brand's tags joined with commas.
pub open spec fn tags_joined(tags: Seq<Seq<char>>) -> Seq<char>
    decreases tags.len(),
{
    if tags.len() == 0 {
        Seq::empty()
    } else if tags.len() == 1 {
        tags[0]
    } else {
        tags[0] + ","@ + tags_joined(tags.drop_first())
    }
}

/// `metadata:<hash>/<id>.json;tags:<tags>`: the attribute string carried by
/// one minted token.
pub open spec fn nft_attributes(hash: Seq<char>, nft_id: nat, tags: Seq<Seq<char>>) -> Seq<char> {
    "metadata:"@ + hash + "/"@ + dec_rep(nft_id) + ".json"@ + ";tags:"@ + tags_joined(tags)
}

/// Joining distributes over appending one more tag at the end.
proof fn lemma_tags_joined_push(tags: Seq<Seq<char>>, tag: Seq<char>)
    requires
        tags.len() > 0,
    ensures
        tags_joined(tags.push(tag)) == tags_joined(tags) + ","@ + tag,
    decreases tags.len(),
{
    let pushed = tags.push(tag);
    if tags.len() == 1 {
        assert(pushed.len() == 2);
        assert(pushed[0] == tags[0]);
        assert(pushed.drop_first() =~= seq![tag]);
        assert(tags_joined(pushed.drop_first()) == tag);
    } else {
        assert(pushed[0] == tags[0]);
        assert(pushed.drop_first() =~= tags.drop_first().push(tag));
        lemma_tags_joined_push(tags.drop_first(), tag);
        assert(tags[0] + ","@ + (tags_joined(tags.drop_first()) + ","@ + tag) =~= (tags[0] + ","@
            + tags_joined(tags.drop_first())) + ","@ + tag);
    }
}

/// The views of a sequence of strings.
pub open spec fn string_views(tags: Seq<String>) -> Seq<Seq<char>> {
    tags.map_values(|t: String| t@)
}

/// Joins the tags with commas.
pub fn join_tags(tags: &Vec<String>) -> (r: String)
    ensures
        r@ == tags_joined(string_views(tags@)),
{
    let mut joined = String::new();
    let mut i: usize = 0;
    while i < tags.len()
        invariant
            i <= tags@.len(),
            joined@ == tags_joined(string_views(tags@.take(i as int))),
        decreases tags@.len() - i,
    {
        if i > 0 {
            joined.append(",");
            proof {
                reveal_strlit(",");
            }
        }
        joined.append(tags[i].as_str());
        proof {
            let prev = string_views(tags@.take(i as int));
            let now = string_views(tags@.take(i + 1 as int));
            assert(now =~= prev.push(tags@[i as int]@));
            if i == 0 {
                assert(now =~= seq![tags@[0]@]);
                assert(joined@ =~= tags_joined(now));
            } else {
                lemma_tags_joined_push(prev, tags@[i as int]@);
                assert(joined@ =~= tags_joined(now));
            }
        }
        i = i + 1;
    }
    proof {
        assert(tags@.take(tags@.len() as int) =~= tags@);
    }
    joined
}

/// Builds the URI of one token's main media file.
pub fn build_nft_main_file_uri(collection_hash: &String, nft_id: u64, media_type: &String) -> (r:
    String)
    ensures
        r@ == main_file_uri(collection_hash@, nft_id as nat, media_type@),
{
    let mut uri = String::new();
    uri.append("https://ipfs.io/ipfs/");
    uri.append(collection_hash.as_str());
    uri.append("/");
    uri.append(u64_dec_string(nft_id).as_str());
    uri.append(".");
    uri.append(media_type.as_str());
    uri
}

/// Builds the URI of one token's JSON metadata file.
pub fn build_nft_json_file_uri(collection_hash: &String, nft_id: u64) -> (r: String)
    ensures
        r@ == json_file_uri(collection_hash@, nft_id as nat),
{
    let mut uri = String::new();
    uri.append("https://ipfs.io/ipfs/");
    uri.append(collection_hash.as_str());
    uri.append("/");
    uri.append(u64_dec_string(nft_id).as_str());
    uri.append(".json");
    uri
}

/// Builds the URI of the collection's JSON file.
pub fn build_collection_json_file_uri(collection_hash: &String) -> (r: String)
    ensures
        r@ == collection_json_uri(collection_hash@),
{
    let mut uri = String::new();
    uri.append("https://ipfs.io/ipfs/");
    uri.append(collection_hash.as_str());
    uri.append("/collection.json");
    uri
}

/// Builds the attribute string carried by one minted token.
pub fn build_nft_attributes_string(collection_hash: &String, nft_id: u64, tags: &Vec<String>) -> (r:
    String)
    ensures
        r@ == nft_attributes(collection_hash@, nft_id as nat, string_views(tags@)),
{
    let mut attributes = String::new();
    attributes.append("metadata:");
    attributes.append(collection_hash.as_str());
    attributes.append("/");
    attributes.append(u64_dec_string(nft_id).as_str());
    attributes.append(".json");
    attributes.append(";tags:");
    attributes.append(join_tags(tags).as_str());
    attributes
}

} // verus!
