//! Utilities and types shared by the rest of the kernel.
pub mod maps;
pub mod text;

use vstd::prelude::*;
use vstd::string::*;
use vstd::utf8::*;
use crate::common::text::{string_push, utf8_len};

verus! {

/// A globally unique identifier for a type.
#[derive(Clone, Copy, Debug, PartialEq, Eq, Hash, Structural)]
pub struct TypeId {
    pub id: u64,
}

/// Types that carry a [`TypeId`] and a name.
pub trait TypeIdTy {
    /// The identifier of the type.
    spec fn type_id_spec() -> u64;

    /// The name of the type.
    spec fn type_name_spec() -> Seq<char>;

    fn get_type_id() -> (r: TypeId)
        ensures
            r.id == Self::type_id_spec(),
    ;

    fn get_type_id_ref(&self) -> (r: TypeId)
        ensures
            r.id == Self::type_id_spec(),
    ;

    fn get_name() -> (r: &'static str)
        ensures
            r@ == Self::type_name_spec(),
    ;

    fn get_name_ref(&self) -> (r: &'static str)
        ensures
            r@ == Self::type_name_spec(),
    ;
}

impl TypeId {
    pub fn new(id: u64) -> (r: Self)
        ensures
            r.id == id,
    {
        Self { id }
    }

    pub fn get_id(&self) -> (r: u64)
        ensures
            r == self.id,
    {
        self.id
    }

    /// The identifier of the type `T`.
    pub fn of<T: TypeIdTy>() -> (r: Self)
        ensures
            r.id == T::type_id_spec(),
    {
        T::get_type_id()
    }
}

impl TypeIdTy for TypeId {
    open spec fn type_id_spec() -> u64 {
        0
    }

    open spec fn type_name_spec() -> Seq<char> {
        "TypeId"@
    }

    fn get_type_id() -> (r: TypeId) {
        TypeId { id: 0 }
    }

    fn get_type_id_ref(&self) -> (r: TypeId) {
        TypeId { id: 0 }
    }

    fn get_name() -> (r: &'static str) {
        "TypeId"
    }

    fn get_name_ref(&self) -> (r: &'static str) {
        "TypeId"
    }
}

/// Whether `char::is_uppercase` from std holds of `c`.
pub uninterp spec fn char_uppercase(c: char) -> bool;

/// The characters `char::to_lowercase` from std yields for `c`.
pub uninterp spec fn char_lowercase(c: char) -> Seq<char>;

/// An ASCII character is upper case exactly when it is one of `A`..=`Z`.
pub open spec fn ascii_upper(c: char) -> bool {
    65 <= (c as u32) <= 90
}

/// `char::is_uppercase` from std: the Unicode `Uppercase` property; for an
/// ASCII character, whether it is one of `A`..=`Z`. Its value on other
/// characters follows the Unicode tables, which are not stated here.
#[verifier::external_body]
fn is_uppercase(c: char) -> (r: bool)
    ensures
        r == char_uppercase(c),
        (c as u32) < 128 ==> (r <==> ascii_upper(c)),
{
    c.is_uppercase()
}

/// `char::to_lowercase` from std, collected into a `String`: the lower case
/// mapping of `c`; an ASCII upper case letter maps to the letter 32 code
/// points higher, any other ASCII character to itself. Other characters map
/// as the Unicode tables say, which is not stated here.
#[verifier::external_body]
fn to_lowercase(c: char) -> (r: String)
    ensures
        r@ == char_lowercase(c),
        (c as u32) < 128 && ascii_upper(c) ==> r@ == seq![((c as u32) + 32) as char],
        (c as u32) < 128 && !ascii_upper(c) ==> r@ == seq![c],
{
    c.to_lowercase().to_string()
}

/// The piece of the snake case form contributed by the character at `i`:
/// its lower case form, followed by `_` where a character that is not upper
/// case is followed by an upper case one.
pub open spec fn snake_piece(s: Seq<char>, i: int, blen: int) -> Seq<char> {
    let low = char_lowercase(s[i]);
    if i == blen - 1 {
        low
    } else if !char_uppercase(s[i]) && i + 1 < s.len() && char_uppercase(s[i + 1]) {
        low + seq!['_']
    } else {
        low
    }
}

/// The snake case form of the first `k` characters of `s`.
pub open spec fn snake_prefix(s: Seq<char>, k: int, blen: int) -> Seq<char>
    decreases k,
{
    if k <= 0 {
        Seq::<char>::empty()
    } else {
        snake_prefix(s, k - 1, blen) + snake_piece(s, k - 1, blen)
    }
}

/// The snake case form of `s` (`blen` is the number of bytes of `s`).
pub open spec fn snake_case(s: Seq<char>) -> Seq<char> {
    snake_prefix(s, s.len() as int, utf8_len(s) as int)
}

/// Inputs on which [`StringExt::to_snake_case`] is defined: the last
/// character is reached as the last byte (all of `s` is ASCII), or it is upper
/// case; otherwise the conversion would look past the end of the text.
pub open spec fn snake_case_ok(s: Seq<char>) -> bool {
    &&& utf8_len(s) <= usize::MAX
    &&& (s.len() == 0 || utf8_len(s) == s.len() || char_uppercase(s.last()))
}

/// Every character of `s` is ASCII.
pub open spec fn is_ascii_text(s: Seq<char>) -> bool {
    forall|i: int| 0 <= i < s.len() ==> (#[trigger] s[i] as u32) < 128
}

/// The lower case form of an ASCII character: `A`..=`Z` become `a`..=`z`,
/// the others stay.
pub open spec fn ascii_lower(c: char) -> char {
    if ascii_upper(c) {
        ((c as u32) + 32) as char
    } else {
        c
    }
}

/// The piece of the snake case form of ASCII text `s` contributed by the
/// character at `i`: its lower case form, followed by `_` where it is not
/// upper case and the next character is.
pub open spec fn ascii_snake_piece(s: Seq<char>, i: int) -> Seq<char> {
    if i + 1 < s.len() && !ascii_upper(s[i]) && ascii_upper(s[i + 1]) {
        seq![ascii_lower(s[i]), '_']
    } else {
        seq![ascii_lower(s[i])]
    }
}

/// The snake case form of the first `k` characters of ASCII text `s`.
pub open spec fn ascii_snake_prefix(s: Seq<char>, k: int) -> Seq<char>
    decreases k,
{
    if k <= 0 {
        Seq::<char>::empty()
    } else {
        ascii_snake_prefix(s, k - 1) + ascii_snake_piece(s, k - 1)
    }
}

/// The pieces before the last character of `s` do not change when a
/// character is appended.
proof fn lemma_ascii_snake_prefix_push(s: Seq<char>, c: char, k: int)
    requires
        0 <= k < s.len(),
    ensures
        ascii_snake_prefix(s.push(c), k) == ascii_snake_prefix(s, k),
    decreases k,
{
    if k > 0 {
        lemma_ascii_snake_prefix_push(s, c, k - 1);
        assert(s.push(c)[k - 1] == s[k - 1]);
        assert(s.push(c)[k] == s[k]);
        assert(ascii_snake_piece(s.push(c), k - 1) == ascii_snake_piece(s, k - 1));
    }
}

/// The snake case form of ASCII text grows one character at a time: with a
/// character `c` appended to non-empty text `s`, it is the form of `s`,
/// then `_` where the last character of `s` is not upper case and `c` is,
/// then `c` in lower case (`A`..=`Z` become `a`..=`z`). In particular an
/// underscore comes before every upper case letter that follows one that is
/// not, wherever it stands, the last letter included.
pub proof fn law_snake_case_appends(s: Seq<char>, c: char)
    requires
        s.len() > 0,
    ensures
        ascii_snake_prefix(s.push(c), s.len() + 1int) == ascii_snake_prefix(s, s.len() as int) + (if !(65 <= (s.last() as u32)
            <= 90) && 65 <= (c as u32) <= 90 {
            seq!['_']
        } else {
            Seq::<char>::empty()
        }) + seq![if 65 <= (c as u32) <= 90 {
            ((c as u32) + 32) as char
        } else {
            c
        }],
{
    let n = s.len() as int;
    let t = s.push(c);
    lemma_ascii_snake_prefix_push(s, c, n - 1);
    assert(t[n - 1] == s.last());
    assert(t[n] == c);
    assert(ascii_snake_prefix(t, n + 1) == ascii_snake_prefix(t, n) + ascii_snake_piece(t, n));
    assert(ascii_snake_prefix(t, n) == ascii_snake_prefix(t, n - 1) + ascii_snake_piece(t, n - 1));
    assert(ascii_snake_prefix(s, n) == ascii_snake_prefix(s, n - 1) + ascii_snake_piece(s, n - 1));
    assert(ascii_snake_prefix(t, n + 1) =~= ascii_snake_prefix(s, n) + (if !(65 <= (s.last() as u32) <= 90) && 65
        <= (c as u32) <= 90 {
        seq!['_']
    } else {
        Seq::<char>::empty()
    }) + seq![if 65 <= (c as u32) <= 90 {
        ((c as u32) + 32) as char
    } else {
        c
    }]);
}

pub proof fn lemma_utf8_len_ge_len(s: Seq<char>)
    ensures
        utf8_len(s) >= s.len(),
    decreases s.len(),
{
    if s.len() > 0 {
        lemma_utf8_len_ge_len(s.drop_first());
    }
}

/// Conversions of text.
pub trait StringExt: View<V = Seq<char>> {
    /// `CamelCase` to `snake_case`: lower case, with `_` before an upper case
    /// character that follows one that is not. On ASCII text the result is
    /// [`ascii_snake_prefix`] of the whole text.
    fn to_snake_case(&self) -> (r: String)
        requires
            snake_case_ok(self@),
        ensures
            r@ == snake_case(self@),
            is_ascii_text(self@) ==> r@ == ascii_snake_prefix(self@, self@.len() as int),
    ;
}

impl StringExt for str {
    fn to_snake_case(&self) -> (r: String) {
        let mut result = String::new();
        let n = self.unicode_len();
        let blen = self.len();
        let ghost bl = utf8_len(self@) as int;
        proof {
            lemma_utf8_len_ge_len(self@);
        }
        let mut i: usize = 0;
        while i < n
            invariant
                n == self@.len(),
                blen == bl,
                bl == utf8_len(self@),
                bl >= n,
                snake_case_ok(self@),
                0 <= i <= n,
                result@ == snake_prefix(self@, i as int, bl),
                is_ascii_text(self@) ==> result@ == ascii_snake_prefix(self@, i as int),
            decreases n - i,
        {
            let c = self.get_char(i);
            let low = to_lowercase(c);
            let ghost before = result@;
            proof {
                if is_ascii_text(self@) {
                    assert((self@[i as int] as u32) < 128);
                    assert(low@ == seq![ascii_lower(c)]);
                }
            }
            if i + 1 == blen {
                result.append(low.as_str());
                assert(i + 1 == n);
                proof {
                    if is_ascii_text(self@) {
                        assert(result@ =~= ascii_snake_prefix(self@, i as int) + ascii_snake_piece(self@, i as int));
                    }
                }
                return result;
            }
            if !is_uppercase(c) && is_uppercase(self.get_char(i + 1)) {
                result.append(low.as_str());
                string_push(&mut result, '_');
                assert(result@ =~= before + (low@ + seq!['_']));
                proof {
                    if is_ascii_text(self@) {
                        assert((self@[i + 1] as u32) < 128);
                        assert(result@ =~= ascii_snake_prefix(self@, i as int) + ascii_snake_piece(self@, i as int));
                    }
                }
            } else {
                result.append(low.as_str());
                proof {
                    if is_ascii_text(self@) {
                        if i + 1 < n && !ascii_upper(c) {
                            assert((self@[i + 1] as u32) < 128);
                        }
                        assert(result@ =~= ascii_snake_prefix(self@, i as int) + ascii_snake_piece(self@, i as int));
                    }
                }
            }
            i = i + 1;
        }
        result
    }
}

/// A random 128 bit number drawn by `uuid::Uuid::new_v4` (as `u128`). The
/// uuid crate sets the version nibble (bits 76..80) to 4 and the top two
/// bits of the low half (bits 62, 63) to `10`; the other bits are random.
#[verifier::external_body]
fn uuid_v4_u128() -> (r: u128)
    ensures
        (r >> 76u128) & 0xfu128 == 4,
        (r >> 62u128) & 3u128 == 2,
{
    uuid::Uuid::new_v4().as_u128()
}

/// A random 128 bit identifier (a version 4 UUID).
pub fn gen_128() -> (r: u128)
    ensures
        (r >> 76u128) & 0xfu128 == 4,
        (r >> 62u128) & 3u128 == 2,
{
    uuid_v4_u128()
}

/// A random 64 bit identifier: the low half of a version 4 UUID.
pub fn gen_64() -> (r: u64)
    ensures
        r >> 62u64 == 2,
{
    let x = uuid_v4_u128();
    let r = x as u64;
    assert((x >> 62u128) & 3u128 == 2 ==> (x as u64) >> 62u64 == 2) by (bit_vector);
    r
}

/// The name of the type `T`.
pub fn type_name_any<T: TypeIdTy + ?Sized>() -> (r: &'static str)
    ensures
        r@ == T::type_name_spec(),
{
    T::get_name()
}

} // verus!
