//! Which illustrations are processed: those named outright, and those of
//! the owners named.

use crate::pixiv::client::{profile_url, profile_url_text};
use crate::pixiv::types::{IllustId, Profile, ProfileId};
use vstd::multiset::{lemma_multiset_empty_len, Multiset};
use vstd::prelude::*;
use vstd::seq_lib::{lemma_multiset_commutative, to_multiset_build, to_multiset_len};

verus! {

/// A run of identifiers as a discovery yields them: each one found.
pub open spec fn found<E>(ids: Seq<IllustId>) -> Seq<Result<IllustId, E>> {
    Seq::new(ids.len(), |i: int| Ok(ids[i]))
}

/// What an owner's answer yields: each illustration of the owner, in the
/// order of the answer, or the failure of the lookup and nothing else.
pub open spec fn expansion<E>(answer: Result<Profile, E>) -> Seq<Result<IllustId, E>> {
    match answer {
        Ok(profile) => found(profile.illusts@),
        Err(e) => seq![Err(e)],
    }
}

/// The identifiers that a discovery found, in the order it yielded them.
pub open spec fn successes<E>(stream: Seq<Result<IllustId, E>>) -> Seq<IllustId>
    decreases stream.len(),
{
    if stream.len() == 0 {
        Seq::empty()
    } else {
        match stream.last() {
            Ok(id) => successes(stream.drop_last()).push(id),
            Err(_) => successes(stream.drop_last()),
        }
    }
}

/// The identifiers that a discovery found, each as often as it was found,
/// without regard to order.
pub open spec fn identifiers<E>(stream: Seq<Result<IllustId, E>>) -> Multiset<IllustId> {
    successes(stream).to_multiset()
}

/// Yields one identifier.
#[derive(Debug)]
pub struct SimpleIllustIdProvider {
    pub illust_id: IllustId,
}

/// Yields the illustrations of one owner, once the owner's listing has been
/// fetched.
#[derive(Debug)]
pub struct ProfileIllustIdProvider {
    pub profile_id: ProfileId,
}

/// Yields the illustrations named outright and those of the owners named.
#[derive(Debug)]
pub struct MasterIllustIdProvider {
    pub illust_ids: Vec<IllustId>,
    pub profile_ids: Vec<ProfileId>,
}

/// A discovery under way: what is known at once, and the owners whose
/// listings are still to be fetched.
#[derive(Debug)]
pub struct MasterStream<E> {
    /// The identifiers that need no lookup.
    pub ready: Vec<Result<IllustId, E>>,
    /// One provider for each owner, in the order the owners were named.
    pub pending: Vec<ProfileIllustIdProvider>,
}

impl SimpleIllustIdProvider {
    /// A provider of the one identifier `illust_id`.
    pub fn new(illust_id: IllustId) -> (provider: Self)
        ensures
            provider.illust_id == illust_id,
    {
        SimpleIllustIdProvider { illust_id }
    }

    /// The identifier itself; this cannot fail.
    pub fn into_stream<E>(self) -> (stream: Vec<Result<IllustId, E>>)
        ensures
            stream@ == found::<E>(seq![self.illust_id]),
    {
        let mut stream = Vec::new();
        stream.push(Ok(self.illust_id));
        assert(stream@ =~= found::<E>(seq![self.illust_id]));
        stream
    }
}

impl ProfileIllustIdProvider {
    /// A provider of the illustrations of the owner `profile_id`.
    pub fn new(profile_id: ProfileId) -> (provider: Self)
        ensures
            provider.profile_id == profile_id,
    {
        ProfileIllustIdProvider { profile_id }
    }

    /// The address of the owner's listing, which has to be fetched once.
    pub fn request(&self) -> (url: String)
        ensures
            url@ == profile_url_text(self.profile_id),
    {
        profile_url(self.profile_id)
    }

    /// What the owner contributes, given the answer to the lookup: every
    /// illustration of the listing, or the lookup's failure alone.
    pub fn into_stream<E>(self, answer: Result<Profile, E>) -> (stream: Vec<Result<IllustId, E>>)
        ensures
            stream@ == expansion(answer),
    {
        let mut stream: Vec<Result<IllustId, E>> = Vec::new();
        match answer {
            Ok(profile) => {
                let mut index: usize = 0;
                while index < profile.illusts.len()
                    invariant
                        index <= profile.illusts@.len(),
                        stream@ == found::<E>(profile.illusts@.take(index as int)),
                    decreases profile.illusts@.len() - index,
                {
                    stream.push(Ok(profile.illusts[index]));
                    assert(stream@ =~= found::<E>(profile.illusts@.take(index + 1)));
                    index += 1;
                }
                assert(profile.illusts@.take(index as int) =~= profile.illusts@);
            },
            Err(e) => {
                stream.push(Err(e));
                assert(stream@ =~= seq![Err::<IllustId, E>(e)]);
            },
        }
        stream
    }
}

impl MasterIllustIdProvider {
    /// A provider of the illustrations `illust_ids` and of those of the
    /// owners `profile_ids`.
    pub fn new(illust_ids: Vec<IllustId>, profile_ids: Vec<ProfileId>) -> (provider: Self)
        ensures
            provider.illust_ids == illust_ids,
            provider.profile_ids == profile_ids,
    {
        MasterIllustIdProvider { illust_ids, profile_ids }
    }

    /// Starts the discovery: the identifiers named outright are there at
    /// once and wait for nothing; each owner becomes a provider of its own,
    /// whose listing can be fetched apart from the others.
    pub fn into_stream<E>(self) -> (stream: MasterStream<E>)
        ensures
            stream.ready@ == found::<E>(self.illust_ids@),
            stream.pending@.len() == self.profile_ids@.len(),
            forall|i: int|
                0 <= i < self.profile_ids@.len() ==> (#[trigger] stream.pending@[i]).profile_id
                    == self.profile_ids@[i],
    {
        let mut ready: Vec<Result<IllustId, E>> = Vec::new();
        let mut index: usize = 0;
        while index < self.illust_ids.len()
            invariant
                index <= self.illust_ids@.len(),
                ready@ == found::<E>(self.illust_ids@.take(index as int)),
            decreases self.illust_ids@.len() - index,
        {
            let provider = SimpleIllustIdProvider::new(self.illust_ids[index]);
            let mut one = provider.into_stream::<E>();
            ready.append(&mut one);
            assert(ready@ =~= found::<E>(self.illust_ids@.take(index + 1)));
            index += 1;
        }
        assert(self.illust_ids@.take(index as int) =~= self.illust_ids@);
        let mut pending: Vec<ProfileIllustIdProvider> = Vec::new();
        index = 0;
        while index < self.profile_ids.len()
            invariant
                index <= self.profile_ids@.len(),
                pending@.len() == index,
                forall|i: int|
                    0 <= i < index ==> (#[trigger] pending@[i]).profile_id == self.profile_ids@[i],
            decreases self.profile_ids@.len() - index,
        {
            pending.push(ProfileIllustIdProvider::new(self.profile_ids[index]));
            index += 1;
        }
        MasterStream { ready, pending }
    }
}

/// Identifiers that are found are all yielded, in order, each once.
pub proof fn lemma_successes_of_found<E>(ids: Seq<IllustId>)
    ensures
        successes(found::<E>(ids)) == ids,
    decreases ids.len(),
{
    if ids.len() > 0 {
        lemma_successes_of_found::<E>(ids.drop_last());
        assert(found::<E>(ids).drop_last() =~= found::<E>(ids.drop_last()));
        assert(successes(found::<E>(ids)) =~= ids);
    } else {
        assert(successes(found::<E>(ids)) =~= ids);
    }
}

/// Merging two sources loses and invents nothing: what the merged stream
/// found is what the first found, then what the second found.
pub proof fn lemma_successes_of_merge<E>(a: Seq<Result<IllustId, E>>, b: Seq<Result<IllustId, E>>)
    ensures
        successes(a + b) == successes(a) + successes(b),
    decreases b.len(),
{
    if b.len() == 0 {
        assert(a + b =~= a);
        assert(successes(a) + successes(b) =~= successes(a));
    } else {
        lemma_successes_of_merge(a, b.drop_last());
        assert((a + b).drop_last() =~= a + b.drop_last());
        assert((a + b).last() == b.last());
        assert(successes(a + b) =~= successes(a) + successes(b));
    }
}

/// A failed lookup yields no identifier; a listing yields its own.
pub proof fn lemma_identifiers_of_expansion<E>(answer: Result<Profile, E>)
    ensures
        match answer {
            Ok(profile) => successes(expansion(answer)) == profile.illusts@,
            Err(_) => successes(expansion(answer)) == Seq::<IllustId>::empty(),
        },
{
    match answer {
        Ok(profile) => {
            lemma_successes_of_found::<E>(profile.illusts@);
        },
        Err(e) => {
            let s = expansion(answer);
            assert(s.drop_last() =~= Seq::<Result<IllustId, E>>::empty());
            assert(successes(s.drop_last()) =~= Seq::<IllustId>::empty());
        },
    }
}

/// In whatever order two sources arrive, the merged stream finds the same
/// identifiers, each as often: those of the one and those of the other.
pub proof fn lemma_arrival_order_irrelevant<E>(
    a: Seq<Result<IllustId, E>>,
    b: Seq<Result<IllustId, E>>,
)
    ensures
        identifiers(a + b) == identifiers(b + a),
        identifiers(a + b) == identifiers(a).add(identifiers(b)),
{
    lemma_successes_of_merge(a, b);
    lemma_successes_of_merge(b, a);
    lemma_multiset_commutative(successes(a), successes(b));
    lemma_multiset_commutative(successes(b), successes(a));
    assert(identifiers(a).add(identifiers(b)) =~= identifiers(b).add(identifiers(a)));
}

/// Everything a discovery yields when the identifiers named outright
/// come first and the owners' answers follow in the order the owners were
/// named: one arrival order among many.
pub open spec fn discovery<E>(explicit: Seq<IllustId>, answers: Seq<Result<Profile, E>>) -> Seq<
    Result<IllustId, E>,
>
    decreases answers.len(),
{
    if answers.len() == 0 {
        found(explicit)
    } else {
        discovery(explicit, answers.drop_last()) + expansion(answers.last())
    }
}

/// What a discovery has to find: the identifiers named outright, and the
/// listing of every owner whose lookup succeeded, each identifier as often
/// as it is named or listed.
pub open spec fn expected_identifiers<E>(
    explicit: Seq<IllustId>,
    answers: Seq<Result<Profile, E>>,
) -> Multiset<IllustId>
    decreases answers.len(),
{
    if answers.len() == 0 {
        explicit.to_multiset()
    } else {
        let rest = expected_identifiers(explicit, answers.drop_last());
        match answers.last() {
            Ok(profile) => rest.add(profile.illusts@.to_multiset()),
            Err(_) => rest,
        }
    }
}

/// Whether `stream` holds what the sources of a discovery yield, each item
/// as often as they yield it, in some order. Every way of merging the
/// sources, whichever answer arrives first, gives such a stream.
pub open spec fn is_arrival_order<E>(
    stream: Seq<Result<IllustId, E>>,
    explicit: Seq<IllustId>,
    answers: Seq<Result<Profile, E>>,
) -> bool {
    stream.to_multiset() == discovery(explicit, answers).to_multiset()
}

/// Nothing yields nothing.
proof fn lemma_nothing_yielded<A>(s: Seq<A>)
    requires
        s.len() == 0,
    ensures
        s.to_multiset() == Multiset::<A>::empty(),
{
    to_multiset_len(s);
    lemma_multiset_empty_len(s.to_multiset());
}

/// An identifier is found as often as the stream yields it.
pub proof fn lemma_identifiers_by_count<E>(stream: Seq<Result<IllustId, E>>, id: IllustId)
    ensures
        identifiers(stream).count(id) == stream.to_multiset().count(Ok(id)),
    decreases stream.len(),
{
    broadcast use vstd::multiset::group_multiset_axioms;

    if stream.len() == 0 {
        lemma_nothing_yielded(successes(stream));
        lemma_nothing_yielded(stream);
    } else {
        let init = stream.drop_last();
        let last = stream.last();
        lemma_identifiers_by_count(init, id);
        assert(stream =~= init.push(last));
        to_multiset_build(init, last);
        assert(stream.to_multiset() =~= init.to_multiset().insert(last));
        match last {
            Ok(other) => {
                to_multiset_build(successes(init), other);
                assert(successes(stream) == successes(init).push(other));
                assert(identifiers(stream) =~= identifiers(init).insert(other));
            },
            Err(_) => {
                assert(successes(stream) == successes(init));
            },
        }
    }
}

/// With the identifiers named outright first and the owners in order, a
/// discovery finds what it has to find.
pub proof fn lemma_discovery_in_order<E>(explicit: Seq<IllustId>, answers: Seq<Result<Profile, E>>)
    ensures
        identifiers(discovery(explicit, answers)) == expected_identifiers(explicit, answers),
    decreases answers.len(),
{
    broadcast use vstd::multiset::group_multiset_axioms;

    if answers.len() == 0 {
        lemma_successes_of_found::<E>(explicit);
        assert(discovery(explicit, answers) == found::<E>(explicit));
    } else {
        let earlier = discovery(explicit, answers.drop_last());
        let last = expansion(answers.last());
        lemma_discovery_in_order(explicit, answers.drop_last());
        lemma_arrival_order_irrelevant(earlier, last);
        lemma_identifiers_of_expansion(answers.last());
        assert(discovery(explicit, answers) == earlier + last);
        match answers.last() {
            Ok(profile) => {
                assert(identifiers(last) == profile.illusts@.to_multiset());
            },
            Err(_) => {
                lemma_nothing_yielded(successes(last));
                assert(identifiers(earlier).add(identifiers(last)) =~= identifiers(earlier));
            },
        }
    }
}

/// However many owners there are and in whatever order their answers
/// arrive, a discovery finds exactly the identifiers named outright and
/// those listed by the owners whose lookup succeeded, each as often as it
/// is named or listed: nothing is left out and nothing is added. The
/// stream has an end: it is as long as what the sources yield together.
pub proof fn lemma_discovery_complete<E>(
    stream: Seq<Result<IllustId, E>>,
    explicit: Seq<IllustId>,
    answers: Seq<Result<Profile, E>>,
)
    requires
        is_arrival_order(stream, explicit, answers),
    ensures
        identifiers(stream) == expected_identifiers(explicit, answers),
        stream.len() == discovery(explicit, answers).len(),
{
    let in_order = discovery(explicit, answers);
    assert(identifiers(stream) =~= identifiers(in_order)) by {
        assert forall|id: IllustId| identifiers(stream).count(id) == identifiers(in_order).count(
            id,
        ) by {
            lemma_identifiers_by_count(stream, id);
            lemma_identifiers_by_count(in_order, id);
        }
    }
    lemma_discovery_in_order(explicit, answers);
    to_multiset_len(stream);
    to_multiset_len(in_order);
}

} // verus!
