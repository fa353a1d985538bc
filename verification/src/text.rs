//! The text of a key: an object of members, each a name and a value between double
//! quotes, with a colon between the two and commas between the members, and no white space.
//! This text, byte for byte, is what a thumbprint is the digest of.

use vstd::prelude::*;
use vstd::string::StringExecFns;

verus! {

/// A member as the contracts see it: a name, and the text of its value.
pub type Member = (Seq<char>, Seq<char>);

/// One member: `"name":"value"`. Name and value are written as they are.
pub open spec fn member_text(member: Member) -> Seq<char> {
    seq!['"'] + member.0 + seq!['"', ':', '"'] + member.1 + seq!['"']
}

/// The members in their order, with a comma between each two.
pub open spec fn members_text(members: Seq<Member>) -> Seq<char>
    decreases members.len(),
{
    if members.len() == 0 {
        Seq::empty()
    } else if members.len() == 1 {
        member_text(members[0])
    } else {
        members_text(members.drop_last()) + seq![','] + member_text(members.last())
    }
}

/// The whole object: the members between braces.
pub open spec fn object_text(members: Seq<Member>) -> Seq<char> {
    seq!['{'] + members_text(members) + seq!['}']
}

/// The text that `base64::encode_config` gives for `bytes` under
/// `base64::URL_SAFE_NO_PAD`.
pub uninterp spec fn base64_url_no_pad(bytes: Seq<u8>) -> Seq<char>;

/// Encodes bytes in URL-safe base64 without padding, by `base64::encode_config` with
/// `base64::URL_SAFE_NO_PAD`.
///
/// Not proved: that the text returned is the one named [`base64_url_no_pad`], that is, that
/// it depends on the bytes alone. The call fails only where the length of the text would
/// not fit in `usize`; a slice holds at most `isize::MAX` bytes, and four thirds of that
/// fit.
#[verifier::external_body]
pub(crate) fn encode_base64(bytes: &[u8]) -> (text: String)
    ensures
        text@ == base64_url_no_pad(bytes@),
{
    base64::encode_config(bytes, base64::URL_SAFE_NO_PAD)
}

/// The members of a list of names and value texts, as the contracts see them.
pub open spec fn members_of(pairs: Seq<(&str, String)>) -> Seq<Member> {
    Seq::new(pairs.len(), |i: int| (pairs[i].0@, pairs[i].1@))
}

/// Writes out an object whose members are `pairs`, in their order.
pub fn write_object(pairs: &[(&str, String)]) -> (text: String)
    ensures
        text@ == object_text(members_of(pairs@)),
{
    let ghost members = members_of(pairs@);
    let mut text = String::new();
    proof {
        reveal_strlit("{");
        reveal_strlit("}");
        reveal_strlit(",");
        reveal_strlit("\"");
        reveal_strlit("\":\"");
    }
    text.append("{");
    let mut i: usize = 0;
    while i < pairs.len()
        invariant
            i <= pairs.len(),
            members == members_of(pairs@),
            text@ == seq!['{'] + members_text(members.take(i as int)),
            ","@ == seq![','],
            "\""@ == seq!['"'],
            "\":\""@ == seq!['"', ':', '"'],
        decreases pairs.len() - i,
    {
        let ghost done = members.take(i as int);
        let ghost next = members.take(i + 1);
        if i > 0 {
            text.append(",");
        }
        text.append("\"");
        text.append(pairs[i].0);
        text.append("\":\"");
        text.append(pairs[i].1.as_str());
        text.append("\"");
        proof {
            assert(next.drop_last() =~= done);
            assert(next.last() == members[i as int]);
            assert(members[i as int] == (pairs@[i as int].0@, pairs@[i as int].1@));
            if i == 0 {
                assert(done =~= Seq::<Member>::empty());
                assert(members_text(done) =~= Seq::<char>::empty());
                assert(text@ =~= seq!['{'] + member_text(members[0]));
            } else {
                assert(text@ =~= seq!['{'] + (members_text(done) + seq![','] + member_text(
                    members[i as int],
                )));
            }
        }
        i += 1;
    }
    assert(members.take(i as int) =~= members);
    text.append("}");
    assert(text@ =~= object_text(members));
    text
}

} // verus!
