//! Password generation: mandatory characters, uniform filling and a
//! Fisher-Yates shuffle, each a step of its own over explicit random draws.

use rand::Rng;
use vstd::prelude::*;

verus! {

/// The character-class policy of a password.
#[derive(Clone, Copy, Debug, PartialEq, Eq, Structural)]
pub enum PasswordType {
    /// Lowercase, uppercase, digits and symbols.
    Standard,
    /// Lowercase and uppercase.
    AlphabetsOnly,
    /// Digits only.
    NumbersOnly,
    /// Lowercase, uppercase and digits.
    Alphanumeric,
}

/// One of the four fixed character sets.
#[derive(Clone, Copy, Debug, PartialEq, Eq, Structural)]
pub enum CharClass {
    Lowercase,
    Uppercase,
    Digit,
    Symbol,
}

/// Why a generation request was refused.
#[derive(Clone, Copy, Debug, PartialEq, Eq, Structural)]
pub enum GenerationError {
    /// The requested length is smaller than the number of mandatory
    /// characters of the policy.
    InvalidRequest,
}

/// The characters of a class, in their fixed order.
pub open spec fn class_chars(c: CharClass) -> Seq<char> {
    match c {
        CharClass::Lowercase => "abcdefghijklmnopqrstuvwxyz"@,
        CharClass::Uppercase => "ABCDEFGHIJKLMNOPQRSTUVWXYZ"@,
        CharClass::Digit => "0123456789"@,
        CharClass::Symbol => "!@#$%^&*()_+-=[]{}|;:,.<>?"@,
    }
}

/// The classes a policy draws from, in the order their mandatory characters
/// are emitted.
pub open spec fn classes(p: PasswordType) -> Seq<CharClass> {
    match p {
        PasswordType::Standard => seq![
            CharClass::Lowercase,
            CharClass::Uppercase,
            CharClass::Digit,
            CharClass::Symbol,
        ],
        PasswordType::AlphabetsOnly => seq![CharClass::Lowercase, CharClass::Uppercase],
        PasswordType::NumbersOnly => seq![CharClass::Digit],
        PasswordType::Alphanumeric => seq![
            CharClass::Lowercase,
            CharClass::Uppercase,
            CharClass::Digit,
        ],
    }
}

/// The union alphabet of a policy: its classes' characters, concatenated.
pub open spec fn alphabet(p: PasswordType) -> Seq<char> {
    match p {
        PasswordType::Standard => class_chars(CharClass::Lowercase) + class_chars(
            CharClass::Uppercase,
        ) + class_chars(CharClass::Digit) + class_chars(CharClass::Symbol),
        PasswordType::AlphabetsOnly => class_chars(CharClass::Lowercase) + class_chars(
            CharClass::Uppercase,
        ),
        PasswordType::NumbersOnly => class_chars(CharClass::Digit),
        PasswordType::Alphanumeric => class_chars(CharClass::Lowercase) + class_chars(
            CharClass::Uppercase,
        ) + class_chars(CharClass::Digit),
    }
}

/// Every character of `s` is in the policy's alphabet.
pub open spec fn within_alphabet(s: Seq<char>, p: PasswordType) -> bool {
    forall|i: int| 0 <= i < s.len() ==> alphabet(p).contains(#[trigger] s[i])
}

/// `s` holds at least one character of each class of the policy.
pub open spec fn covers_classes(s: Seq<char>, p: PasswordType) -> bool {
    forall|k: int|
        0 <= k < classes(p).len() ==> exists|i: int|
            0 <= i < s.len() && class_chars(#[trigger] classes(p)[k]).contains(s[i])
}

/// `s` with the elements at `i` and `j` exchanged.
pub open spec fn swapped(s: Seq<char>, i: int, j: int) -> Seq<char> {
    s.update(i, s[j]).update(j, s[i])
}

/// The Fisher-Yates pass over the first `n` positions of `s`: for `i` from
/// `n - 1` down to `1`, exchange position `i` with position `js[i]`.
pub open spec fn fisher_yates(s: Seq<char>, js: Seq<usize>, n: nat) -> Seq<char>
    decreases n,
{
    if n <= 1 {
        s
    } else {
        fisher_yates(swapped(s, n - 1, js[n - 1] as int), js, (n - 1) as nat)
    }
}

/// The characters that picks `picks` select from `alpha`.
pub open spec fn picked(alpha: Seq<char>, picks: Seq<usize>) -> Seq<char> {
    Seq::new(picks.len(), |k: int| alpha[picks[k] as int])
}

/// The classes' characters are fixed: each class is non-empty and lies in
/// the alphabet of every policy that has it.
pub proof fn lemma_classes_in_alphabet(p: PasswordType)
    ensures
        alphabet(p).len() > 0,
        forall|k: int|
            #![trigger classes(p)[k]]
            0 <= k < classes(p).len() ==> class_chars(classes(p)[k]).len() > 0 && forall|x: char|
                class_chars(classes(p)[k]).contains(x) ==> alphabet(p).contains(x),
{
    reveal_strlit("abcdefghijklmnopqrstuvwxyz");
    reveal_strlit("ABCDEFGHIJKLMNOPQRSTUVWXYZ");
    reveal_strlit("0123456789");
    reveal_strlit("!@#$%^&*()_+-=[]{}|;:,.<>?");
    broadcast use vstd::seq_lib::group_seq_properties;

}

/// Each policy's alphabet is non-empty and holds no character twice.
pub proof fn lemma_alphabet_distinct(p: PasswordType)
    ensures
        alphabet(p).len() > 0,
        alphabet(p).no_duplicates(),
{
    reveal_strlit("abcdefghijklmnopqrstuvwxyz");
    reveal_strlit("ABCDEFGHIJKLMNOPQRSTUVWXYZ");
    reveal_strlit("0123456789");
    reveal_strlit("!@#$%^&*()_+-=[]{}|;:,.<>?");
}

/// The characters of a class, as text.
pub fn class_str(c: CharClass) -> (r: &'static str)
    ensures
        r@ == class_chars(c),
{
    match c {
        CharClass::Lowercase => "abcdefghijklmnopqrstuvwxyz",
        CharClass::Uppercase => "ABCDEFGHIJKLMNOPQRSTUVWXYZ",
        CharClass::Digit => "0123456789",
        CharClass::Symbol => "!@#$%^&*()_+-=[]{}|;:,.<>?",
    }
}

/// The classes of a policy, in mandatory order.
pub fn class_list(p: PasswordType) -> (r: Vec<CharClass>)
    ensures
        r@ == classes(p),
{
    let mut r: Vec<CharClass> = Vec::new();
    match p {
        PasswordType::Standard => {
            r.push(CharClass::Lowercase);
            r.push(CharClass::Uppercase);
            r.push(CharClass::Digit);
            r.push(CharClass::Symbol);
        },
        PasswordType::AlphabetsOnly => {
            r.push(CharClass::Lowercase);
            r.push(CharClass::Uppercase);
        },
        PasswordType::NumbersOnly => {
            r.push(CharClass::Digit);
        },
        PasswordType::Alphanumeric => {
            r.push(CharClass::Lowercase);
            r.push(CharClass::Uppercase);
            r.push(CharClass::Digit);
        },
    }
    assert(r@ =~= classes(p));
    r
}

/// How many mandatory characters the policy asks for when coverage is
/// enforced.
pub fn mandatory_count(p: PasswordType) -> (r: usize)
    ensures
        r == classes(p).len(),
{
    class_list(p).len()
}

/// The union alphabet of a policy, as text.
pub fn alphabet_string(p: PasswordType) -> (r: String)
    ensures
        r@ == alphabet(p),
{
    let list = class_list(p);
    let mut r = String::new();
    let mut k: usize = 0;
    while k < list.len()
        invariant
            list@ == classes(p),
            k <= list@.len(),
            r@ == classes(p).take(k as int).fold_left(
                Seq::<char>::empty(),
                |acc: Seq<char>, c: CharClass| acc + class_chars(c),
            ),
        decreases list@.len() - k,
    {
        r.append(class_str(list[k]));
        proof {
            let t = classes(p).take(k as int + 1);
            assert(t.drop_last() =~= classes(p).take(k as int));
        }
        k = k + 1;
    }
    proof {
        assert(classes(p).take(list@.len() as int) =~= classes(p));
        reveal_with_fuel(Seq::fold_left, 5);
        assert(r@ =~= alphabet(p));
    }
    r
}

/// The mandatory step: for the `k`-th class of the policy, the character at
/// index `picks[k]` of that class.
pub fn seed_mandatory(p: PasswordType, picks: &Vec<usize>) -> (r: Vec<char>)
    requires
        picks@.len() == classes(p).len(),
        forall|k: int|
            0 <= k < picks@.len() ==> (#[trigger] picks@[k] as int) < class_chars(classes(p)[k]).len(),
    ensures
        r@.len() == classes(p).len(),
        forall|k: int| 0 <= k < r@.len() ==> #[trigger] r@[k] == class_chars(classes(p)[k])[picks@[k] as int],
{
    let list = class_list(p);
    let mut r: Vec<char> = Vec::new();
    let mut k: usize = 0;
    while k < list.len()
        invariant
            list@ == classes(p),
            picks@.len() == list@.len(),
            forall|k: int|
                0 <= k < picks@.len() ==> (#[trigger] picks@[k] as int) < class_chars(classes(p)[k]).len(),
            k <= list@.len(),
            r@.len() == k,
            forall|m: int| 0 <= m < k ==> #[trigger] r@[m] == class_chars(classes(p)[m])[picks@[m] as int],
        decreases list@.len() - k,
    {
        let chars = class_str(list[k]);
        r.push(chars.get_char(picks[k]));
        k = k + 1;
    }
    r
}

/// The filling step: appends, for each pick, the character at that index of
/// the policy's alphabet.
pub fn fill_remaining(p: PasswordType, buf: &mut Vec<char>, picks: &Vec<usize>)
    requires
        forall|k: int| 0 <= k < picks@.len() ==> (#[trigger] picks@[k] as int) < alphabet(p).len(),
    ensures
        final(buf)@ == old(buf)@ + picked(alphabet(p), picks@),
{
    let alpha = alphabet_string(p);
    let ghost start = buf@;
    let mut k: usize = 0;
    while k < picks.len()
        invariant
            alpha@ == alphabet(p),
            forall|k: int| 0 <= k < picks@.len() ==> (#[trigger] picks@[k] as int) < alphabet(p).len(),
            k <= picks@.len(),
            buf@ == start + picked(alphabet(p), picks@.take(k as int)),
        decreases picks@.len() - k,
    {
        buf.push(alpha.as_str().get_char(picks[k]));
        k = k + 1;
        assert(buf@ =~= start + picked(alphabet(p), picks@.take(k as int)));
    }
    assert(picks@.take(k as int) =~= picks@);
}

/// The permutation step: the Fisher-Yates pass that, for `i` from the last
/// index down to `1`, exchanges positions `i` and `js[i]`.
pub fn shuffle(buf: &mut Vec<char>, js: &Vec<usize>)
    requires
        js@.len() == old(buf)@.len(),
        forall|i: int| 0 <= i < js@.len() ==> #[trigger] js@[i] <= i,
    ensures
        final(buf)@.len() == old(buf)@.len(),
        final(buf)@ == fisher_yates(old(buf)@, js@, old(buf)@.len()),
        final(buf)@.to_multiset() == old(buf)@.to_multiset(),
{
    let ghost start = buf@;
    let mut n: usize = buf.len();
    while n > 1
        invariant
            js@.len() == buf@.len(),
            buf@.len() == start.len(),
            forall|i: int| 0 <= i < js@.len() ==> #[trigger] js@[i] <= i,
            n <= buf@.len(),
            fisher_yates(buf@, js@, n as nat) == fisher_yates(start, js@, start.len()),
            buf@.to_multiset() == start.to_multiset(),
        decreases n,
    {
        let i = n - 1;
        let j = js[i];
        let ghost before = buf@;
        let a = buf[i];
        let b = buf[j];
        buf[i] = b;
        buf[j] = a;
        proof {
            broadcast use vstd::seq_lib::group_to_multiset_ensures;

            assert(buf@ =~= swapped(before, i as int, j as int));
            let mid = before.update(i as int, b);
            assert(mid.to_multiset() =~= before.to_multiset().insert(b).remove(a));
            if i != j {
                assert(buf@.to_multiset() =~= mid.to_multiset().insert(a).remove(b));
            }
            assert(buf@.to_multiset() =~= before.to_multiset());
        }
        n = i;
    }
}

/// The mandatory characters that `picks` select: the `k`-th from the
/// `k`-th class of the policy.
pub open spec fn seeded(p: PasswordType, picks: Seq<usize>) -> Seq<char> {
    Seq::new(classes(p).len(), |k: int| class_chars(classes(p)[k])[picks[k] as int])
}

/// One pick per class of the policy, each an index into its class.
pub open spec fn class_picks_valid(p: PasswordType, picks: Seq<usize>) -> bool {
    &&& picks.len() == classes(p).len()
    &&& forall|k: int|
        0 <= k < picks.len() ==> (#[trigger] picks[k] as int) < class_chars(classes(p)[k]).len()
}

/// Every pick is an index into the policy's alphabet.
pub open spec fn alphabet_picks_valid(p: PasswordType, picks: Seq<usize>) -> bool {
    forall|k: int| 0 <= k < picks.len() ==> (#[trigger] picks[k] as int) < alphabet(p).len()
}

/// One exchange index per position, none past its own position.
pub open spec fn swaps_valid(js: Seq<usize>, n: nat) -> bool {
    js.len() == n && forall|i: int| 0 <= i < js.len() ==> #[trigger] js[i] <= i
}

/// The password made from the given draws: with coverage enforced, the
/// mandatory characters followed by the filling characters, shuffled; else
/// the filling characters in the order drawn.
pub open spec fn composed(
    p: PasswordType,
    complex: bool,
    mandatory: Seq<usize>,
    fill: Seq<usize>,
    swaps: Seq<usize>,
) -> Seq<char> {
    if complex {
        let buf = seeded(p, mandatory) + picked(alphabet(p), fill);
        fisher_yates(buf, swaps, buf.len())
    } else {
        picked(alphabet(p), fill)
    }
}

/// A rearrangement of a password keeps it within the alphabet and keeps
/// every class it covers.
pub proof fn lemma_permutation_keeps_policy(a: Seq<char>, b: Seq<char>, p: PasswordType)
    requires
        a.to_multiset() == b.to_multiset(),
    ensures
        within_alphabet(a, p) ==> within_alphabet(b, p),
        covers_classes(a, p) ==> covers_classes(b, p),
{
    broadcast use vstd::seq_lib::group_to_multiset_ensures;

    assert forall|x: char| a.contains(x) <==> b.contains(x) by {
        assert(a.contains(x) <==> a.to_multiset().count(x) > 0);
        assert(b.contains(x) <==> b.to_multiset().count(x) > 0);
    }
    if within_alphabet(a, p) {
        assert forall|i: int| 0 <= i < b.len() implies alphabet(p).contains(#[trigger] b[i]) by {
            assert(b.contains(b[i]));
            let j = choose|j: int| 0 <= j < a.len() && a[j] == b[i];
            assert(alphabet(p).contains(a[j]));
        }
    }
    if covers_classes(a, p) {
        assert forall|k: int| 0 <= k < classes(p).len() implies exists|i: int|
            0 <= i < b.len() && class_chars(#[trigger] classes(p)[k]).contains(b[i]) by {
            let i = choose|i: int| 0 <= i < a.len() && class_chars(classes(p)[k]).contains(a[i]);
            assert(a.contains(a[i]));
            let j = choose|j: int| 0 <= j < b.len() && b[j] == a[i];
            assert(class_chars(classes(p)[k]).contains(b[j]));
        }
    }
}

/// Relies on rand::thread_rng and rand::Rng::gen_range: a draw from
/// `0..bound`, which panics when the range is empty.
#[verifier::external_body]
fn draw_below(bound: usize) -> (r: usize)
    requires
        bound > 0,
    ensures
        r < bound,
{
    rand::thread_rng().gen_range(0..bound)
}

/// Relies on String::push: appends the character to the end of the string.
#[verifier::external_body]
fn push_char(s: &mut String, c: char)
    ensures
        final(s)@ == old(s)@.push(c),
{
    s.push(c)
}

/// The string holding the given characters in order.
fn chars_to_string(v: &Vec<char>) -> (r: String)
    ensures
        r@ == v@,
{
    let mut r = String::new();
    let mut k: usize = 0;
    while k < v.len()
        invariant
            k <= v@.len(),
            r@ == v@.take(k as int),
        decreases v@.len() - k,
    {
        push_char(&mut r, v[k]);
        k = k + 1;
        assert(r@ =~= v@.take(k as int));
    }
    assert(v@.take(k as int) =~= v@);
    r
}

/// Builds a password from explicit draws. With `complex`, refuses a length
/// below the policy's mandatory count; else takes one character of the
/// alphabet for each fill pick.
pub fn compose_password(
    length: usize,
    p: PasswordType,
    complex: bool,
    mandatory: &Vec<usize>,
    fill: &Vec<usize>,
    swaps: &Vec<usize>,
) -> (r: Result<String, GenerationError>)
    requires
        alphabet_picks_valid(p, fill@),
        complex && length >= classes(p).len() ==> {
            &&& class_picks_valid(p, mandatory@)
            &&& fill@.len() == length - classes(p).len()
            &&& swaps_valid(swaps@, length as nat)
        },
        !complex ==> fill@.len() == length,
    ensures
        r is Err <==> complex && length < classes(p).len(),
        r is Err ==> r == Err::<String, GenerationError>(GenerationError::InvalidRequest),
        r is Ok ==> r->Ok_0@ == composed(p, complex, mandatory@, fill@, swaps@),
        r is Ok ==> r->Ok_0@.len() == length,
        r is Ok ==> within_alphabet(r->Ok_0@, p),
        r is Ok && complex ==> covers_classes(r->Ok_0@, p),
{
    proof {
        lemma_classes_in_alphabet(p);
    }
    let count = mandatory_count(p);
    if complex && length < count {
        return Err(GenerationError::InvalidRequest);
    }
    let mut buf: Vec<char> = if complex {
        seed_mandatory(p, mandatory)
    } else {
        Vec::new()
    };
    let ghost seed = buf@;
    fill_remaining(p, &mut buf, fill);
    assert(within_alphabet(buf@, p)) by {
        assert forall|i: int| 0 <= i < buf@.len() implies alphabet(p).contains(#[trigger] buf@[i]) by {
            if i < seed.len() {
                assert(class_chars(classes(p)[i]).contains(buf@[i]));
            } else {
                assert(buf@[i] == alphabet(p)[fill@[i - seed.len()] as int]);
            }
        }
    }
    if complex {
        assert(seed =~= seeded(p, mandatory@));
        assert(covers_classes(buf@, p)) by {
            assert forall|k: int| 0 <= k < classes(p).len() implies exists|i: int|
                0 <= i < buf@.len() && class_chars(#[trigger] classes(p)[k]).contains(buf@[i]) by {
                assert(class_chars(classes(p)[k]).contains(buf@[k]));
            }
        }
        let ghost before = buf@;
        shuffle(&mut buf, swaps);
        proof {
            lemma_permutation_keeps_policy(before, buf@, p);
        }
    } else {
        assert(buf@ =~= picked(alphabet(p), fill@));
    }
    Ok(chars_to_string(&buf))
}

/// One random index into each class of the policy.
fn draw_class_picks(p: PasswordType) -> (r: Vec<usize>)
    ensures
        class_picks_valid(p, r@),
{
    proof {
        lemma_classes_in_alphabet(p);
    }
    let list = class_list(p);
    let mut r: Vec<usize> = Vec::new();
    let mut k: usize = 0;
    while k < list.len()
        invariant
            list@ == classes(p),
            k <= list@.len(),
            r@.len() == k,
            forall|m: int| 0 <= m < k ==> (#[trigger] r@[m] as int) < class_chars(classes(p)[m]).len(),
            forall|m: int| 0 <= m < classes(p).len() ==> class_chars(#[trigger] classes(p)[m]).len() > 0,
        decreases list@.len() - k,
    {
        let bound = class_str(list[k]).unicode_len();
        assert(class_chars(classes(p)[k as int]).len() > 0);
        r.push(draw_below(bound));
        k = k + 1;
    }
    r
}

/// `count` random indices into the policy's alphabet.
fn draw_alphabet_picks(p: PasswordType, count: usize) -> (r: Vec<usize>)
    ensures
        r@.len() == count,
        alphabet_picks_valid(p, r@),
{
    proof {
        lemma_classes_in_alphabet(p);
    }
    let bound = alphabet_string(p).as_str().unicode_len();
    let mut r: Vec<usize> = Vec::new();
    let mut k: usize = 0;
    while k < count
        invariant
            bound == alphabet(p).len(),
            bound > 0,
            k <= count,
            r@.len() == k,
            alphabet_picks_valid(p, r@),
        decreases count - k,
    {
        r.push(draw_below(bound));
        k = k + 1;
    }
    r
}

/// For each position `i` below `n`, a random index in `0..=i`.
fn draw_swaps(n: usize) -> (r: Vec<usize>)
    ensures
        swaps_valid(r@, n as nat),
{
    let mut r: Vec<usize> = Vec::new();
    let mut i: usize = 0;
    while i < n
        invariant
            i <= n,
            swaps_valid(r@, i as nat),
        decreases n - i,
    {
        r.push(draw_below(i + 1));
        i = i + 1;
    }
    r
}

/// A random password of `length` characters of the policy's alphabet with at
/// least one character of each of its classes, in random positions. Refused
/// when `length` is below the policy's mandatory count.
pub fn generate_complex_password(length: usize, password_type: PasswordType) -> (r: Result<
    String,
    GenerationError,
>)
    ensures
        r is Err <==> length < classes(password_type).len(),
        r is Err ==> r == Err::<String, GenerationError>(GenerationError::InvalidRequest),
        r is Ok ==> r->Ok_0@.len() == length,
        r is Ok ==> within_alphabet(r->Ok_0@, password_type),
        r is Ok ==> covers_classes(r->Ok_0@, password_type),
{
    let count = mandatory_count(password_type);
    if length < count {
        return Err(GenerationError::InvalidRequest);
    }
    let mandatory = draw_class_picks(password_type);
    let fill = draw_alphabet_picks(password_type, length - count);
    let swaps = draw_swaps(length);
    compose_password(length, password_type, true, &mandatory, &fill, &swaps)
}

/// A random password of `length` characters of the policy's alphabet. With
/// `complex`, it is the one `generate_complex_password` makes; else each
/// character is drawn on its own and nothing is refused.
pub fn generate_password(length: usize, password_type: PasswordType, complex: bool) -> (r: Result<
    String,
    GenerationError,
>)
    ensures
        r is Err <==> complex && length < classes(password_type).len(),
        r is Err ==> r == Err::<String, GenerationError>(GenerationError::InvalidRequest),
        r is Ok ==> r->Ok_0@.len() == length,
        r is Ok ==> within_alphabet(r->Ok_0@, password_type),
        r is Ok && complex ==> covers_classes(r->Ok_0@, password_type),
{
    if complex {
        generate_complex_password(length, password_type)
    } else {
        let fill = draw_alphabet_picks(password_type, length);
        let none: Vec<usize> = Vec::new();
        compose_password(length, password_type, false, &none, &fill, &none)
    }
}

} // verus!
