//! Turns tokenized text into the boolean examples of a machine: one feature
//! for each entry of a vocabulary, set when the text holds that token.

use vstd::prelude::*;

verus! {

/// Why a batch could not be vectorized: the chunk at the position `chunk`
/// holds the token `id`, for which a vector of the size of the vocabulary has
/// no place.
#[derive(Clone, Copy, Debug, PartialEq, Eq, Structural)]
pub struct OutOfVocabulary {
    pub chunk: usize,
    pub id: u32,
}

/// The token `id` occurs in `ids`.
pub open spec fn has_id(ids: Seq<u32>, id: int) -> bool {
    exists|j: int| 0 <= j < ids.len() && ids[j] == id
}

/// The presence vector of `ids`: `size` features, set where the token occurs.
pub open spec fn presence(ids: Seq<u32>, size: nat) -> Seq<bool> {
    Seq::new(size, |i: int| has_id(ids, i))
}

/// Every token of `ids` has a place in a vector of `size` features.
pub open spec fn in_vocabulary(ids: Seq<u32>, size: nat) -> bool {
    forall|j: int| 0 <= j < ids.len() ==> ids[j] < size
}

/// `id` is the first token of `ids` without a place in a vector of `size`
/// features.
pub open spec fn first_outside(ids: Seq<u32>, size: nat, id: u32) -> bool {
    exists|j: int|
        0 <= j < ids.len() && ids[j] == id && id >= size && in_vocabulary(#[trigger] ids.take(j), size)
}

/// The token ids of the chunks of a batch.
pub open spec fn chunks_view(chunks: Seq<Vec<u32>>) -> Seq<Seq<u32>> {
    Seq::new(chunks.len(), |k: int| chunks[k]@)
}

/// The vectors of a batch.
pub open spec fn batch_view(batch: Seq<Vec<bool>>) -> Seq<Seq<bool>> {
    Seq::new(batch.len(), |k: int| batch[k]@)
}

/// The presence vectors of all chunks, when every token of every chunk has
/// a place in a vector of `size` features.
pub open spec fn vectorized(chunks: Seq<Seq<u32>>, size: nat, batch: Seq<Seq<bool>>) -> bool {
    &&& batch.len() == chunks.len()
    &&& forall|k: int|
        0 <= k < chunks.len() ==> in_vocabulary(#[trigger] chunks[k], size) && batch[k] == presence(
            chunks[k],
            size,
        )
}

/// The error names the first chunk that holds a token without a place, and
/// the first such token of that chunk.
pub open spec fn refused(chunks: Seq<Seq<u32>>, size: nat, error: OutOfVocabulary) -> bool {
    &&& error.chunk < chunks.len()
    &&& first_outside(chunks[error.chunk as int], size, error.id)
    &&& forall|l: int| 0 <= l < error.chunk ==> in_vocabulary(#[trigger] chunks[l], size)
}

/// The presence vector of `ids` with `size` features, or the first token of
/// `ids` for which such a vector has no place.
pub fn presence_vector(ids: &Vec<u32>, size: usize) -> (made: Result<Vec<bool>, u32>)
    ensures
        match made {
            Ok(vector) => in_vocabulary(ids@, size as nat) && vector@ == presence(ids@, size as nat),
            Err(id) => first_outside(ids@, size as nat, id),
        },
{
    let mut vector: Vec<bool> = Vec::new();
    let mut i: usize = 0;
    while i < size
        invariant
            i <= size,
            vector.len() == i,
            forall|k: int| 0 <= k < i ==> !vector[k],
        decreases size - i,
    {
        vector.push(false);
        i += 1;
    }
    let mut j: usize = 0;
    while j < ids.len()
        invariant
            j <= ids.len(),
            vector.len() == size,
            in_vocabulary(ids@.take(j as int), size as nat),
            forall|k: int| 0 <= k < size ==> vector[k] == has_id(ids@.take(j as int), k),
        decreases ids.len() - j,
    {
        let id = ids[j];
        if id as usize >= size {
            return Err(id);
        }
        let ghost before = ids@.take(j as int);
        let ghost after = ids@.take(j + 1);
        vector.set(id as usize, true);
        proof {
            assert(after =~= before.push(id));
            assert forall|k: int| 0 <= k < size implies vector[k] == has_id(after, k) by {
                if has_id(before, k) {
                    let w = choose|w: int| 0 <= w < before.len() && before[w] == k;
                    assert(after[w] == k);
                }
                if k == id {
                    assert(after[j as int] == k);
                }
                if has_id(after, k) && k != id {
                    let w = choose|w: int| 0 <= w < after.len() && after[w] == k;
                    assert(before[w] == k);
                }
            }
        }
        j += 1;
    }
    assert(ids@.take(j as int) =~= ids@);
    assert(vector@ =~= presence(ids@, size as nat));
    Ok(vector)
}

/// Vectorizes each chunk of token ids over a vocabulary of `size` entries:
/// the presence vectors of all chunks, or the first token that lies outside
/// the vocabulary.
pub fn vectorize(chunks: &Vec<Vec<u32>>, size: usize) -> (outcome: Result<Vec<Vec<bool>>, OutOfVocabulary>)
    ensures
        match outcome {
            Ok(batch) => vectorized(chunks_view(chunks@), size as nat, batch_view(batch@)),
            Err(error) => refused(chunks_view(chunks@), size as nat, error),
        },
{
    let ghost model = chunks_view(chunks@);
    let mut batch: Vec<Vec<bool>> = Vec::new();
    let mut k: usize = 0;
    while k < chunks.len()
        invariant
            k <= chunks.len(),
            model == chunks_view(chunks@),
            batch.len() == k,
            forall|l: int|
                0 <= l < k ==> in_vocabulary(#[trigger] model[l], size as nat) && batch[l]@ == presence(
                    model[l],
                    size as nat,
                ),
        decreases chunks.len() - k,
    {
        assert(model[k as int] == chunks[k as int]@);
        match presence_vector(&chunks[k], size) {
            Ok(vector) => {
                batch.push(vector);
            },
            Err(id) => {
                return Err(OutOfVocabulary { chunk: k, id });
            },
        }
        k += 1;
    }
    assert forall|l: int| 0 <= l < model.len() implies in_vocabulary(#[trigger] model[l], size as nat)
        && batch_view(batch@)[l] == presence(model[l], size as nat) by {
        assert(batch_view(batch@)[l] == batch[l]@);
    }
    Ok(batch)
}

} // verus!
