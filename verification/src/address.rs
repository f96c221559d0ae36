//! Content addresses and the paths the store keeps objects under.
use crate::hex::{
    hex, hex_digit, is_hex_digit, is_hex_text, lemma_hex_digit_injective,
    lemma_hex_digit_is_plain, lemma_hex_is_hex_text, to_hex,
};
use vstd::prelude::*;
use vstd::string::*;

verus! {

/// Whether `text` can be the address of some content: the hexadecimal text of
/// a digest of at least one byte.
pub open spec fn is_address_text(text: Seq<char>) -> bool {
    &&& text.len() >= 2
    &&& text.len() % 2 == 0
    &&& is_hex_text(text)
}

/// The name of the shard directory with the given index: its two hexadecimal digits.
pub open spec fn shard_name(index: u8) -> Seq<char> {
    hex(seq![index])
}

/// The path, relative to the root, of the shard directory that `address`
/// belongs to. The address has at least two characters.
pub open spec fn shard_path(address: Seq<char>) -> Seq<char> {
    seq!['.', '/'] + address.subrange(0, 2)
}

/// The path, relative to the root, of the object stored under `address`: the
/// shard named by the first two characters, then the whole address. The
/// address has at least two characters.
pub open spec fn object_path(address: Seq<char>) -> Seq<char> {
    shard_path(address) + seq!['/'] + address
}

/// The decimal digits of `n`, most significant first.
pub open spec fn decimal(n: nat) -> Seq<char>
    decreases n,
{
    if n < 10 {
        seq![hex_digit(n as int)]
    } else {
        decimal(n / 10).push(hex_digit((n % 10) as int))
    }
}

/// The decimal text of `n`, with a minus sign where it is negative.
pub open spec fn signed_decimal(n: int) -> Seq<char> {
    if n < 0 {
        seq!['-'] + decimal((-n) as nat)
    } else {
        decimal(n as nat)
    }
}

/// The directory under which the kernel shows each open descriptor of the
/// process as a path.
pub open spec fn descriptor_directory() -> Seq<char> {
    seq!['/', 'p', 'r', 'o', 'c', '/', 's', 'e', 'l', 'f', '/', 'f', 'd', '/']
}

/// The path under which the kernel shows the open descriptor `fd` of the process.
pub open spec fn descriptor_path(fd: int) -> Seq<char> {
    descriptor_directory() + signed_decimal(fd)
}

/// Whether `path` holds a NUL character, which no path handed to the kernel may.
pub open spec fn has_nul(path: Seq<char>) -> bool {
    path.contains('\0')
}

/// Whether the bytes of `path` hold a NUL byte, which no path handed to the
/// kernel may.
pub open spec fn has_nul_byte(path: Seq<u8>) -> bool {
    path.contains(0u8)
}

/// The address of some content: the lowercase hexadecimal text of its digest.
#[derive(Debug, PartialEq, Eq)]
pub struct Address {
    text: String,
}

impl View for Address {
    type V = Seq<char>;

    closed spec fn view(&self) -> Seq<char> {
        self.text@
    }
}

impl Clone for Address {
    fn clone(&self) -> (copy: Self)
        ensures
            copy@ == self@,
    {
        proof {
            use_type_invariant(self);
        }
        Address { text: self.text.clone() }
    }
}

impl Address {
    #[verifier::type_invariant]
    spec fn well_formed(self) -> bool {
        is_address_text(self.text@)
    }

    /// The address of the content whose digest is `digest`; none for the
    /// empty digest, which names nothing.
    pub fn from_digest(digest: &[u8]) -> (address: Option<Address>)
        ensures
            match address {
                Some(a) => digest@.len() > 0 && a@ == hex(digest@),
                None => digest@.len() == 0,
            },
    {
        if digest.len() == 0 {
            None
        } else {
            proof {
                lemma_hex_is_hex_text(digest@);
            }
            Some(Address { text: to_hex(digest) })
        }
    }

    /// The address as lowercase hexadecimal text.
    pub fn as_hex(&self) -> (text: String)
        ensures
            text@ == self@,
            is_address_text(text@),
    {
        proof {
            use_type_invariant(self);
        }
        self.text.clone()
    }

    /// The address as a string slice.
    pub fn as_str(&self) -> (text: &str)
        ensures
            text@ == self@,
            is_address_text(text@),
    {
        proof {
            use_type_invariant(self);
        }
        self.text.as_str()
    }

    /// The path, relative to the root of a store, of the object under this
    /// address. It holds no NUL character.
    pub fn object_path(&self) -> (path: String)
        ensures
            path@ == object_path(self@),
            !has_nul(path@),
            is_address_text(self@),
    {
        proof {
            use_type_invariant(self);
            lemma_object_path_has_no_nul(self.text@);
        }
        object_path_of(self.text.as_str())
    }
}

/// The name of shard directory `index`, `00` to `ff`.
pub fn shard_name_of(index: u8) -> (name: String)
    ensures
        name@ == shard_name(index),
        name@.len() == 2,
{
    let mut byte: Vec<u8> = Vec::new();
    byte.push(index);
    assert(byte@ =~= seq![index]);
    to_hex(byte.as_slice())
}

/// The path of the shard directory of `address`.
pub(crate) fn shard_path_of(address: &str) -> (path: String)
    requires
        address@.len() >= 2,
    ensures
        path@ == shard_path(address@),
{
    proof {
        reveal_strlit("./");
    }
    let mut path = String::from_str("./");
    path.append(address.substring_char(0, 2));
    assert(path@ =~= shard_path(address@));
    path
}

/// The path of the object stored under `address`.
pub(crate) fn object_path_of(address: &str) -> (path: String)
    requires
        address@.len() >= 2,
    ensures
        path@ == object_path(address@),
{
    proof {
        reveal_strlit("/");
    }
    let mut path = shard_path_of(address);
    path.append("/");
    path.append(address);
    assert(path@ =~= object_path(address@));
    path
}

/// The one-character text of the decimal digit `digit`.
fn digit_text(digit: u32) -> (text: &'static str)
    requires
        digit < 10,
    ensures
        text@ == seq![hex_digit(digit as int)],
{
    proof {
        reveal_strlit("0");
        reveal_strlit("1");
        reveal_strlit("2");
        reveal_strlit("3");
        reveal_strlit("4");
        reveal_strlit("5");
        reveal_strlit("6");
        reveal_strlit("7");
        reveal_strlit("8");
        reveal_strlit("9");
    }
    let text = if digit == 0 {
        "0"
    } else if digit == 1 {
        "1"
    } else if digit == 2 {
        "2"
    } else if digit == 3 {
        "3"
    } else if digit == 4 {
        "4"
    } else if digit == 5 {
        "5"
    } else if digit == 6 {
        "6"
    } else if digit == 7 {
        "7"
    } else if digit == 8 {
        "8"
    } else {
        "9"
    };
    assert(text@ =~= seq![hex_digit(digit as int)]);
    text
}

/// Appends the decimal digits of `n` to `text`.
fn push_decimal(text: &mut String, n: u32)
    ensures
        final(text)@ == old(text)@ + decimal(n as nat),
    decreases n,
{
    if n >= 10 {
        push_decimal(text, n / 10);
    }
    text.append(digit_text(n % 10));
    assert(text@ =~= old(text)@ + decimal(n as nat));
}

/// The path under which the kernel shows the open descriptor `fd`.
pub fn descriptor_path_of(fd: i32) -> (path: String)
    ensures
        path@ == descriptor_path(fd as int),
{
    proof {
        reveal_strlit("/proc/self/fd/");
        reveal_strlit("-");
    }
    let mut path = String::from_str("/proc/self/fd/");
    assert(path@ =~= descriptor_directory());
    if fd < 0 {
        path.append("-");
        let magnitude: u32 = (-(fd as i64)) as u32;
        push_decimal(&mut path, magnitude);
    } else {
        push_decimal(&mut path, fd as u32);
    }
    assert(path@ =~= descriptor_path(fd as int));
    path
}

/// Decimal text consists of digits.
pub proof fn lemma_decimal_is_hex_text(n: nat)
    ensures
        is_hex_text(decimal(n)),
        decimal(n).len() >= 1,
    decreases n,
{
    if n >= 10 {
        lemma_decimal_is_hex_text(n / 10);
    }
    assert forall|i: int| 0 <= i < decimal(n).len() implies is_hex_digit(
        #[trigger] decimal(n)[i],
    ) by {
        if n >= 10 && i < decimal(n / 10).len() {
            assert(decimal(n)[i] == decimal(n / 10)[i]);
        } else {
            let d = (n % 10) as int;
            assert(crate::hex::hex_digits()[d] == decimal(n)[i]);
        }
    }
}

/// The decimal text determines the number.
pub proof fn lemma_decimal_injective(a: nat, b: nat)
    requires
        decimal(a) == decimal(b),
    ensures
        a == b,
    decreases a,
{
    lemma_decimal_is_hex_text(a / 10);
    lemma_decimal_is_hex_text(b / 10);
    if a < 10 && b < 10 {
        assert(decimal(a)[0] == hex_digit(a as int));
        assert(decimal(b)[0] == hex_digit(b as int));
        lemma_hex_digit_injective(a as int, b as int);
    } else if a < 10 {
        assert(decimal(a).len() == 1);
        assert(decimal(b).len() == decimal(b / 10).len() + 1);
    } else if b < 10 {
        assert(decimal(b).len() == 1);
        assert(decimal(a).len() == decimal(a / 10).len() + 1);
    } else {
        assert(decimal(a / 10) =~= decimal(a).drop_last());
        assert(decimal(b / 10) =~= decimal(b).drop_last());
        lemma_decimal_injective(a / 10, b / 10);
        assert(decimal(a).last() == hex_digit((a % 10) as int));
        assert(decimal(b).last() == hex_digit((b % 10) as int));
        lemma_hex_digit_injective((a % 10) as int, (b % 10) as int);
    }
}

/// The path of a descriptor determines the descriptor.
pub proof fn lemma_descriptor_path_injective(a: int, b: int)
    requires
        descriptor_path(a) == descriptor_path(b),
    ensures
        a == b,
{
    let lead = descriptor_directory().len() as int;
    assert(signed_decimal(a) =~= descriptor_path(a).skip(lead));
    assert(signed_decimal(b) =~= descriptor_path(b).skip(lead));
    let ma = if a < 0 {
        (-a) as nat
    } else {
        a as nat
    };
    let mb = if b < 0 {
        (-b) as nat
    } else {
        b as nat
    };
    lemma_decimal_is_hex_text(ma);
    lemma_decimal_is_hex_text(mb);
    if a < 0 && b < 0 {
        assert(decimal(ma) =~= signed_decimal(a).skip(1));
        assert(decimal(mb) =~= signed_decimal(b).skip(1));
        lemma_decimal_injective(ma, mb);
    } else if a < 0 {
        assert(signed_decimal(a)[0] == '-');
        assert(signed_decimal(b)[0] == decimal(mb)[0]);
        lemma_hex_digit_is_plain(decimal(mb)[0]);
    } else if b < 0 {
        assert(signed_decimal(b)[0] == '-');
        assert(signed_decimal(a)[0] == decimal(ma)[0]);
        lemma_hex_digit_is_plain(decimal(ma)[0]);
    } else {
        lemma_decimal_injective(ma, mb);
    }
}

/// The shard of the address of a digest is the shard named by the first byte
/// of the digest, and the path of the object lies in it.
pub proof fn lemma_shard_of_address(digest: Seq<u8>)
    requires
        digest.len() > 0,
    ensures
        shard_path(hex(digest)) == shard_path(shard_name(digest[0])),
        object_path(hex(digest)).take(4) == shard_path(hex(digest)),
        is_address_text(hex(digest)),
{
    lemma_hex_is_hex_text(digest);
    lemma_hex_is_hex_text(seq![digest[0]]);
    let address = hex(digest);
    let name = shard_name(digest[0]);
    assert(address.subrange(0, 2) =~= name.subrange(0, 2)) by {
        assert forall|i: int| 0 <= i < 2 implies address[i] == name[i] by {
            assert(i / 2 == 0);
            assert(digest[i / 2] == seq![digest[0]][i / 2]);
        }
    }
    assert(object_path(address).take(4) =~= shard_path(address));
}

/// The path of a descriptor holds no NUL character.
pub proof fn lemma_descriptor_path_has_no_nul(fd: int)
    ensures
        !has_nul(descriptor_path(fd)),
{
    let path = descriptor_path(fd);
    let magnitude = if fd < 0 {
        (-fd) as nat
    } else {
        fd as nat
    };
    lemma_decimal_is_hex_text(magnitude);
    assert forall|i: int| 0 <= i < path.len() implies path[i] != '\0' by {
        let lead = descriptor_directory().len() as int;
        if i < lead {
            assert(path[i] == descriptor_directory()[i]);
        } else if fd < 0 && i == lead {
            assert(path[i] == '-');
        } else {
            let k = if fd < 0 {
                i - lead - 1
            } else {
                i - lead
            };
            assert(path[i] == decimal(magnitude)[k]);
            lemma_hex_digit_is_plain(decimal(magnitude)[k]);
        }
    }
}

/// The path of the object under an address holds no NUL character.
pub proof fn lemma_object_path_has_no_nul(address: Seq<char>)
    requires
        is_hex_text(address),
        address.len() >= 2,
    ensures
        !has_nul(object_path(address)),
        !has_nul(shard_path(address)),
{
    let path = object_path(address);
    assert forall|i: int| 0 <= i < path.len() implies path[i] != '\0' by {
        if i < 2 {
        } else if i < 4 {
            assert(path[i] == address[i - 2]);
            lemma_hex_digit_is_plain(address[i - 2]);
        } else if i == 4 {
        } else {
            assert(path[i] == address[i - 5]);
            lemma_hex_digit_is_plain(address[i - 5]);
        }
    }
    let shard = shard_path(address);
    assert forall|i: int| 0 <= i < shard.len() implies shard[i] != '\0' by {
        if i >= 2 {
            assert(shard[i] == address[i - 2]);
            lemma_hex_digit_is_plain(address[i - 2]);
        }
    }
}

} // verus!
