//! Session identifiers: random UUIDs, or short codes that are easy to read aloud.

use vstd::prelude::*;
use vstd::string::*;
use crate::text::push_from;

verus! {

/// `rand::rngs::ThreadRng`, carried from one call to the next as it is.
#[verifier::external_type_specification]
#[verifier::external_body]
pub struct ExThreadRng(rand::rngs::ThreadRng);

/// `rand::thread_rng`: a handle to the calling thread's random number
/// generator. Nothing is claimed of it.
#[verifier::external_body]
fn thread_rng() -> rand::rngs::ThreadRng {
    rand::thread_rng()
}

/// `rand::Rng::gen_range(0, bound)` on `usize`: some index below `bound`.
/// Which one is left open, so two calls may differ. The outside function
/// panics on an empty range, which the precondition rules out.
#[verifier::external_body]
fn random_index(rng: &mut rand::rngs::ThreadRng, bound: usize) -> (index: usize)
    requires
        0 < bound,
    ensures
        index < bound,
{
    rand::Rng::gen_range(rng, 0, bound)
}

/// `uuid::Uuid::new_v4`, written out by the `Display` impl of `uuid::Uuid`:
/// the hyphenated lower-case form of a random (version 4, RFC 4122 variant)
/// UUID. Only the shape is claimed; which UUID comes out is left open.
#[verifier::external_body]
fn random_uuid_text() -> (text: String)
    ensures
        is_uuid_text(text@),
{
    uuid::Uuid::new_v4().to_string()
}

/// The characters a short code is drawn from: digits and lower-case letters,
/// without the easily confused `l` and `o`.
pub open spec fn short_id_alphabet() -> Seq<char> {
    "0123456789abcdefghijkmnpqrstuvwxyz"@
}

/// The shape of a short code: two groups of four alphabet characters joined
/// by a hyphen.
pub open spec fn is_short_id(id: Seq<char>) -> bool {
    &&& id.len() == 9
    &&& id[4] == '-'
    &&& forall|i: int| 0 <= i < 9 && i != 4 ==> short_id_alphabet().contains(#[trigger] id[i])
}

/// Whether `c` is a hexadecimal digit in lower case.
pub open spec fn is_lower_hex(c: char) -> bool {
    ('0' <= c && c <= '9') || ('a' <= c && c <= 'f')
}

/// The shape of a random UUID in hyphenated lower-case form:
/// `xxxxxxxx-xxxx-4xxx-yxxx-xxxxxxxxxxxx`, `y` one of `8`, `9`, `a`, `b`.
pub open spec fn is_uuid_text(id: Seq<char>) -> bool {
    &&& id.len() == 36
    &&& forall|i: int|
        0 <= i < 36 ==> if i == 8 || i == 13 || i == 18 || i == 23 {
            #[trigger] id[i] == '-'
        } else {
            is_lower_hex(id[i])
        }
    &&& id[14] == '4'
    &&& (id[19] == '8' || id[19] == '9' || id[19] == 'a' || id[19] == 'b')
}

/// A source of candidate session identifiers.
pub trait IdGenerator: Send + Sync {
    fn gen(&self) -> String;
}

/// Gives random UUIDs, hyphenated and in lower case.
#[derive(Clone, Copy)]
pub struct UuidGenerator {}

impl UuidGenerator {
    pub fn new() -> (generator: Self) {
        Self {  }
    }
}

impl IdGenerator for UuidGenerator {
    fn gen(&self) -> (id: String)
        ensures
            is_uuid_text(id@),
    {
        random_uuid_text()
    }
}

/// Gives short codes: two groups of four characters, joined by a hyphen.
#[derive(Clone, Copy)]
pub struct ShortIdGenerator {}

/// The short code that eight places in the alphabet stand for: the
/// characters at the first four places, a hyphen, and the characters at the
/// last four.
pub open spec fn short_id_of(places: Seq<usize>) -> Seq<char> {
    Seq::new(
        9,
        |i: int|
            if i < 4 {
                short_id_alphabet()[places[i] as int]
            } else if i == 4 {
                '-'
            } else {
                short_id_alphabet()[places[i - 1] as int]
            },
    )
}

/// Writes the short code that eight places in the alphabet stand for.
pub fn short_id_from(places: &[usize]) -> (id: String)
    requires
        places@.len() == 8,
        forall|i: int| 0 <= i < 8 ==> (#[trigger] places@[i]) < 34,
    ensures
        id@ == short_id_of(places@),
        is_short_id(id@),
{
    let possible = "0123456789abcdefghijkmnpqrstuvwxyz";
    proof {
        reveal_strlit("0123456789abcdefghijkmnpqrstuvwxyz");
        reveal_strlit("-");
    }
    assert(possible.is_ascii());
    let mut id = String::new();
    let mut n: usize = 0;
    while n < 8
        invariant
            n <= 8,
            places@.len() == 8,
            forall|i: int| 0 <= i < 8 ==> (#[trigger] places@[i]) < 34,
            possible.is_ascii(),
            possible@ == short_id_alphabet(),
            possible@.len() == 34,
            "-"@ == seq!['-'],
            id@ == short_id_of(places@).take(if n <= 4 { n as int } else { n + 1 }),
        decreases 8 - n,
    {
        if n == 4 {
            push_from(&mut id, "-", 0);
        }
        push_from(&mut id, possible, places[n]);
        n = n + 1;
        assert(id@ =~= short_id_of(places@).take(if n <= 4 { n as int } else { n + 1 }));
    }
    assert(id@ =~= short_id_of(places@));
    assert forall|i: int| 0 <= i < 9 && i != 4 implies short_id_alphabet().contains(
        #[trigger] id@[i],
    ) by {
        let place = if i < 4 { places@[i] } else { places@[i - 1] };
        assert(short_id_alphabet()[place as int] == id@[i]);
    }
    id
}

impl ShortIdGenerator {
    pub fn new() -> (generator: Self) {
        Self {  }
    }
}

impl IdGenerator for ShortIdGenerator {
    fn gen(&self) -> (id: String)
        ensures
            is_short_id(id@),
    {
        let mut rng = thread_rng();
        let mut places: Vec<usize> = Vec::new();
        while places.len() < 8
            invariant
                places@.len() <= 8,
                forall|i: int| 0 <= i < places@.len() ==> (#[trigger] places@[i]) < 34,
            decreases 8 - places@.len(),
        {
            places.push(random_index(&mut rng, 34));
        }
        short_id_from(places.as_slice())
    }
}

/// Either of the two generators, chosen at run time.
#[derive(Clone, Copy)]
pub enum Generator {
    Uuid(UuidGenerator),
    ShortCode(ShortIdGenerator),
}

impl IdGenerator for Generator {
    fn gen(&self) -> (id: String)
        ensures
            match self {
                Generator::Uuid(_) => is_uuid_text(id@),
                Generator::ShortCode(_) => is_short_id(id@),
            },
    {
        match self {
            Generator::Uuid(g) => g.gen(),
            Generator::ShortCode(g) => g.gen(),
        }
    }
}

/// Picks the generator by name: `"uuid"` gives random UUIDs, any other name
/// gives short codes.
pub fn create_generator(gen_type: &str) -> (generator: Generator)
    ensures
        generator is Uuid <==> gen_type@ == "uuid"@,
{
    if gen_type.to_owned() == "uuid".to_owned() {
        Generator::Uuid(UuidGenerator::new())
    } else {
        Generator::ShortCode(ShortIdGenerator::new())
    }
}

} // verus!
