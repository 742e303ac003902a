//! Negotiating and undoing the compression of response bodies.
//!
//! The catcher holds decoders by the name of their encoding; a later
//! decoder of the same name replaces an earlier one. Requests announce the
//! names in `Accept-Encoding`; a response body is decoded with the decoder
//! its `Content-Encoding` names.
use crate::errors::ClientError;
use crate::headers::all_visible_ascii;
use crate::headers::header_text;
use crate::io::Decompressor;
use crate::text::ascii_chars;
use vstd::prelude::*;
use vstd::string::*;

verus! {

/// The decoders of `ds` by name, a later one replacing an earlier one of the
/// same name.
pub open spec fn registry_of<D: Decompressor>(ds: Seq<D>) -> Map<Seq<char>, D>
    decreases ds.len(),
{
    if ds.len() == 0 {
        Map::empty()
    } else {
        registry_of(ds.drop_last()).insert(ds.last().name_spec(), ds.last())
    }
}

/// No two decoders of `ds` have the same name.
pub open spec fn distinct_names<D: Decompressor>(ds: Seq<D>) -> bool {
    forall|i: int, j: int|
        0 <= i < j < ds.len() ==> #[trigger] ds[i].name_spec() != #[trigger] ds[j].name_spec()
}

/// The names of the decoders of `ds`.
pub open spec fn names_of<D: Decompressor>(ds: Seq<D>) -> Seq<Seq<char>> {
    ds.map_values(|d: D| d.name_spec())
}

/// The names `names` joined by commas.
pub open spec fn join_names(names: Seq<Seq<char>>) -> Seq<char>
    decreases names.len(),
{
    if names.len() == 0 {
        Seq::empty()
    } else if names.len() == 1 {
        names[0]
    } else {
        join_names(names.drop_last()) + seq![','] + names.last()
    }
}

/// A name is registered exactly when a decoder has it.
pub proof fn lemma_registry_dom<D: Decompressor>(ds: Seq<D>, k: Seq<char>)
    ensures
        registry_of(ds).dom().contains(k) <==> exists|i: int|
            0 <= i < ds.len() && #[trigger] ds[i].name_spec() == k,
    decreases ds.len(),
{
    if ds.len() > 0 {
        lemma_registry_dom(ds.drop_last(), k);
        if registry_of(ds.drop_last()).dom().contains(k) {
            let i = choose|i: int| 0 <= i < ds.drop_last().len() && #[trigger] ds.drop_last()[i].name_spec() == k;
            assert(ds[i].name_spec() == k);
        }
        if exists|i: int| 0 <= i < ds.len() && #[trigger] ds[i].name_spec() == k {
            let i = choose|i: int| 0 <= i < ds.len() && #[trigger] ds[i].name_spec() == k;
            if i < ds.len() - 1 {
                assert(ds.drop_last()[i].name_spec() == k);
            }
        }
    }
}

/// With distinct names, each decoder is the one registered under its name.
pub proof fn lemma_registry_value<D: Decompressor>(ds: Seq<D>, i: int)
    requires
        distinct_names(ds),
        0 <= i < ds.len(),
    ensures
        registry_of(ds).dom().contains(ds[i].name_spec()),
        registry_of(ds)[ds[i].name_spec()] == ds[i],
    decreases ds.len(),
{
    if i < ds.len() - 1 {
        assert(distinct_names(ds.drop_last()));
        lemma_registry_value(ds.drop_last(), i);
        assert(ds[i].name_spec() != ds.last().name_spec());
        assert(ds.drop_last()[i] == ds[i]);
    }
}

/// Replacing the decoder of a name replaces it in the registry.
pub proof fn lemma_registry_update<D: Decompressor>(ds: Seq<D>, i: int, d: D)
    requires
        distinct_names(ds),
        0 <= i < ds.len(),
        ds[i].name_spec() == d.name_spec(),
    ensures
        registry_of(ds.update(i, d)) == registry_of(ds).insert(d.name_spec(), d),
        distinct_names(ds.update(i, d)),
    decreases ds.len(),
{
    let u = ds.update(i, d);
    assert(u.last() == if i == ds.len() - 1 { d } else { ds.last() });
    if i == ds.len() - 1 {
        assert(u.drop_last() =~= ds.drop_last());
        assert(registry_of(u) =~= registry_of(ds).insert(d.name_spec(), d));
    } else {
        assert(distinct_names(ds.drop_last()));
        lemma_registry_update(ds.drop_last(), i, d);
        assert(u.drop_last() =~= ds.drop_last().update(i, d));
        assert(ds[i].name_spec() != ds.last().name_spec());
        assert(registry_of(u) =~= registry_of(ds).insert(d.name_spec(), d));
    }
    assert forall|a: int, b: int| 0 <= a < b < u.len() implies #[trigger] u[a].name_spec()
        != #[trigger] u[b].name_spec() by {
        assert(ds[a].name_spec() != ds[b].name_spec());
    }
}

/// Law: registering a decoder makes it the decoder of its name, whatever
/// was registered under that name before, and leaves the other names as
/// they were.
pub proof fn law_register_replaces<D: Decompressor>(ds: Seq<D>, d: D)
    ensures
        registry_of(ds.push(d))[d.name_spec()] == d,
        registry_of(ds.push(d)).dom().contains(d.name_spec()),
        forall|k: Seq<char>|
            k != d.name_spec() ==> #[trigger] registry_of(ds.push(d)).dom().contains(k)
                == registry_of(ds).dom().contains(k) && (registry_of(ds).dom().contains(k)
                ==> registry_of(ds.push(d))[k] == registry_of(ds)[k]),
{
    assert(ds.push(d).drop_last() =~= ds);
}

/// Law: the names a catcher announces are the names it holds a decoder
/// for, each once.
pub proof fn law_announced_names<D: Decompressor>(ds: Seq<D>)
    requires
        distinct_names(ds),
    ensures
        names_of(ds).no_duplicates(),
        forall|k: Seq<char>| #[trigger] names_of(ds).contains(k) <==> registry_of(ds).dom().contains(k),
{
    assert forall|k: Seq<char>| #[trigger] names_of(ds).contains(k) <==> registry_of(ds).dom().contains(k) by {
        lemma_registry_dom(ds, k);
        if names_of(ds).contains(k) {
            let i = choose|i: int| 0 <= i < names_of(ds).len() && names_of(ds)[i] == k;
            assert(ds[i].name_spec() == k);
        }
        if registry_of(ds).dom().contains(k) {
            let i = choose|i: int| 0 <= i < ds.len() && #[trigger] ds[i].name_spec() == k;
            assert(names_of(ds)[i] == k);
        }
    }
    assert forall|i: int, j: int| 0 <= i < names_of(ds).len() && 0 <= j < names_of(ds).len() && i != j
        implies names_of(ds)[i] != names_of(ds)[j] by {
        if i < j {
            assert(ds[i].name_spec() != ds[j].name_spec());
        } else {
            assert(ds[j].name_spec() != ds[i].name_spec());
        }
    }
}

/// The pieces of `s` between its commas, in order (one piece where there
/// is no comma, empty pieces kept).
pub open spec fn split_commas(s: Seq<char>) -> Seq<Seq<char>>
    decreases s.len(),
{
    if s.len() == 0 {
        seq![Seq::empty()]
    } else if s.last() == ',' {
        split_commas(s.drop_last()).push(Seq::empty())
    } else {
        let p = split_commas(s.drop_last());
        p.update(p.len() - 1, p.last().push(s.last()))
    }
}

/// Does `s` hold no comma?
pub open spec fn comma_free(s: Seq<char>) -> bool {
    forall|i: int| 0 <= i < s.len() ==> #[trigger] s[i] != ','
}

/// A text has at least one piece.
proof fn lemma_split_nonempty(s: Seq<char>)
    ensures
        split_commas(s).len() >= 1,
    decreases s.len(),
{
    if s.len() > 0 {
        lemma_split_nonempty(s.drop_last());
    }
}

/// Appending text without a comma extends the last piece.
proof fn lemma_split_extend(x: Seq<char>, y: Seq<char>)
    requires
        comma_free(y),
    ensures
        split_commas(x + y).len() == split_commas(x).len(),
        split_commas(x + y) == split_commas(x).update(
            split_commas(x).len() - 1,
            split_commas(x).last() + y,
        ),
    decreases y.len(),
{
    lemma_split_nonempty(x);
    let p = split_commas(x);
    if y.len() == 0 {
        assert(x + y =~= x);
        assert(p.last() + y =~= p.last());
        assert(p.update(p.len() - 1, p.last()) =~= p);
    } else {
        let y1 = y.drop_last();
        assert(comma_free(y1));
        lemma_split_extend(x, y1);
        assert((x + y).drop_last() =~= x + y1);
        assert((x + y).last() == y.last());
        assert(y.last() != ',');
        let q = split_commas(x + y1);
        assert(q.last() == p.last() + y1);
        assert(q.last().push(y.last()) =~= p.last() + y);
        assert(split_commas(x + y) =~= p.update(p.len() - 1, p.last() + y));
    }
}

/// Law: the `Accept-Encoding` value a catcher announces, split at its
/// commas, gives back every registered name, in order, and nothing else
/// (for names without commas); a catcher with no decoders announces the
/// empty text.
pub proof fn law_accept_encoding_splits(names: Seq<Seq<char>>)
    requires
        forall|i: int| 0 <= i < names.len() ==> comma_free(#[trigger] names[i]),
    ensures
        names.len() > 0 ==> split_commas(join_names(names)) == names,
        names.len() == 0 ==> join_names(names) == Seq::<char>::empty(),
    decreases names.len(),
{
    if names.len() == 1 {
        lemma_split_extend(Seq::empty(), names[0]);
        assert(Seq::<char>::empty() + names[0] =~= names[0]);
        assert(Seq::<char>::empty() + names[0] =~= names[0]);
        assert(split_commas(names[0]) =~= names);
    } else if names.len() > 1 {
        let init = names.drop_last();
        assert forall|i: int| 0 <= i < init.len() implies comma_free(#[trigger] init[i]) by {
            assert(init[i] == names[i]);
        }
        law_accept_encoding_splits(init);
        let j = join_names(init);
        let jc = j + seq![','];
        assert(jc.drop_last() =~= j);
        assert(split_commas(jc) == split_commas(j).push(Seq::empty()));
        assert(comma_free(names.last()));
        lemma_split_extend(jc, names.last());
        assert(join_names(names) == jc + names.last());
        assert(Seq::<char>::empty() + names.last() =~= names.last());
        assert(split_commas(join_names(names)) =~= names);
    }
}

/// Law: the names a catcher announces in `Accept-Encoding` are the names of
/// its decoders, read back from the value at its commas.
pub proof fn law_accept_encoding_lists_registry<D: Decompressor>(ds: Seq<D>)
    requires
        forall|i: int| 0 <= i < ds.len() ==> comma_free(#[trigger] ds[i].name_spec()),
    ensures
        ds.len() > 0 ==> split_commas(join_names(names_of(ds))) == names_of(ds),
        ds.len() == 0 ==> join_names(names_of(ds)) == Seq::<char>::empty(),
{
    assert forall|i: int| 0 <= i < names_of(ds).len() implies comma_free(#[trigger] names_of(ds)[i]) by {
        assert(names_of(ds)[i] == ds[i].name_spec());
    }
    law_accept_encoding_splits(names_of(ds));
}

/// The position of the decoder named `name` in `ds`, if there is one.
fn find_decoder<D: Decompressor>(ds: &Vec<D>, name: &String) -> (r: Option<usize>)
    ensures
        r matches Some(i) ==> i < ds@.len() && ds@[i as int].name_spec() == name@,
        r is None ==> forall|j: int| 0 <= j < ds@.len() ==> #[trigger] ds@[j].name_spec() != name@,
{
    let n = ds.len();
    let mut i: usize = 0;
    while i < n
        invariant
            n == ds@.len(),
            i <= n,
            forall|j: int| 0 <= j < i ==> #[trigger] ds@[j].name_spec() != name@,
        decreases n - i,
    {
        if ds[i].name() == *name {
            return Some(i);
        }
        i = i + 1;
    }
    None
}

/// A catcher that decodes compressed response bodies.
pub struct EncodingCatcher<D: Decompressor> {
    accept_encoding: Vec<D>,
}

impl<D: Decompressor> EncodingCatcher<D> {
    #[verifier::type_invariant]
    closed spec fn unique(self) -> bool {
        distinct_names(self.accept_encoding@)
    }

    /// The decoders, one per name, in the order their names were first
    /// registered.
    pub closed spec fn entries(&self) -> Seq<D> {
        self.accept_encoding@
    }

    /// The decoders by name.
    pub open spec fn registry(&self) -> Map<Seq<char>, D> {
        registry_of(self.entries())
    }

    /// Registers `decoders`; a later decoder of the same name replaces an
    /// earlier one.
    pub fn register_decoders(decoders: Vec<D>) -> (c: Self)
        ensures
            c.registry() == registry_of(decoders@),
            distinct_names(c.entries()),
    {
        let mut input = decoders;
        let ghost orig = input@;
        let ghost mut k: int = 0;
        let mut out: Vec<D> = Vec::new();
        while input.len() > 0
            invariant
                0 <= k <= orig.len(),
                input@ == orig.skip(k),
                distinct_names(out@),
                registry_of(out@) == registry_of(orig.take(k)),
            decreases input.len(),
        {
            let d = input.remove(0);
            assert(d == orig[k]);
            let name = d.name();
            let found = find_decoder(&out, &name);
            let ghost before = out@;
            if let Some(i) = found {
                proof {
                    lemma_registry_update(before, i as int, d);
                }
                out.set(i, d);
            } else {
                out.push(d);
                proof {
                    assert(out@.drop_last() =~= before);
                    assert forall|a: int, b: int| 0 <= a < b < out@.len() implies #[trigger] out@[a].name_spec()
                        != #[trigger] out@[b].name_spec() by {
                        if b < before.len() {
                            assert(before[a].name_spec() != before[b].name_spec());
                        }
                    }
                }
            }
            proof {
                assert(orig.take(k + 1).drop_last() =~= orig.take(k));
                k = k + 1;
                assert(input@ =~= orig.skip(k));
            }
        }
        proof {
            assert(orig.take(k) =~= orig);
        }
        EncodingCatcher { accept_encoding: out }
    }

    /// The value of the `Accept-Encoding` header: the registered names,
    /// joined by commas.
    pub fn accept_encoding(&self) -> (r: String)
        ensures
            r@ == join_names(names_of(self.entries())),
    {
        let mut r = String::new();
        let n = self.accept_encoding.len();
        let mut i: usize = 0;
        while i < n
            invariant
                n == self.accept_encoding@.len(),
                i <= n,
                r@ == join_names(names_of(self.accept_encoding@).take(i as int)),
            decreases n - i,
        {
            let name = self.accept_encoding[i].name();
            let ghost names = names_of(self.accept_encoding@);
            assert(names.take(i + 1).drop_last() =~= names.take(i as int));
            if i > 0 {
                r.append(",");
            }
            proof {
                reveal_strlit(",");
            }
            r.append(name.as_str());
            proof {
                if i == 0 {
                    assert(r@ =~= join_names(names.take(1)));
                } else {
                    assert(r@ =~= join_names(names.take(i + 1)));
                }
            }
            i = i + 1;
        }
        assert(names_of(self.accept_encoding@).take(n as int) =~= names_of(self.accept_encoding@));
        r
    }

    /// Decodes the body `body` of a response whose `Content-Encoding` header
    /// holds `content_encoding` (if it has one), with the decoder of that
    /// name.
    pub fn decode(&self, content_encoding: Option<&[u8]>, body: &[u8]) -> (r: Result<
        Vec<u8>,
        ClientError,
    >)
        requires
            content_encoding matches Some(v) ==> all_visible_ascii(v@),
        ensures
            content_encoding is None ==> (r matches Err(ClientError::Decompress { message })
                && message@ == "Content encoding not found"@),
            content_encoding matches Some(v) ==> {
                let name = ascii_chars(v@);
                if self.registry().dom().contains(name) {
                    let dec = self.registry()[name];
                    &&& r is Ok <==> dec.decompressed(body@) is Some
                    &&& r matches Ok(out) ==> Some(out@) == dec.decompressed(body@)
                    &&& r matches Err(e) ==> e is Decompress
                } else {
                    r matches Err(ClientError::Decompress { message }) && message@
                        == "No decompressor found"@
                }
            },
    {
        proof {
            use_type_invariant(self);
        }
        let v = match content_encoding {
            None => {
                return Err(
                    ClientError::Decompress { message: "Content encoding not found".to_owned() },
                );
            },
            Some(v) => v,
        };
        let text = match header_text(v) {
            Some(t) => t,
            None => {
                assert(false);
                return Err(ClientError::Decompress { message: "No decompressor found".to_owned() });
            },
        };
        match find_decoder(&self.accept_encoding, &text) {
            Some(i) => {
                proof {
                    lemma_registry_value(self.accept_encoding@, i as int);
                }
                return self.accept_encoding[i].decompress(body);
            },
            None => {},
        }
        proof {
            lemma_registry_dom(self.accept_encoding@, text@);
        }
        Err(ClientError::Decompress { message: "No decompressor found".to_owned() })
    }
}

} // verus!
