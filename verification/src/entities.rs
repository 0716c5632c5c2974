//! The bookkeeping of the terminal's on-screen parts: which entity holds the
//! layout nodes and the images by name, and which images are shown.
use vstd::hash_map::StringHashMap;
use vstd::prelude::*;
use vstd::string::StringExecFns;

use crate::session::History;

verus! {

/// Marks the text that shows the line being typed.
pub struct TerminalInput;

/// Marks the text that shows the output.
pub struct TerminalOutput;

/// Entity indices by name: the layout nodes (`main`, `output`, `input`) and
/// the images, named by the command that showed them.
pub struct EntityDatabase {
    pub hashmap: StringHashMap<u32>,
}

impl Default for EntityDatabase {
    fn default() -> (r: Self)
        ensures
            r.hashmap@ == Map::<Seq<char>, u32>::empty(),
    {
        EntityDatabase { hashmap: StringHashMap::new() }
    }
}

/// The entity indices of the images shown so far (`None` for a removed one)
/// and of the output node that holds them.
pub struct ImageIdenifier {
    pub id: Vec<Option<u32>>,
    pub output_id: Option<u32>,
}

impl Default for ImageIdenifier {
    fn default() -> (r: Self)
        ensures
            r.id@ == Seq::<Option<u32>>::empty(),
            r.output_id is None,
    {
        ImageIdenifier { id: Vec::new(), output_id: None }
    }
}

impl ImageIdenifier {
    /// Drops the entry at `pos` from the shown images; the later ones move up.
    pub fn remove_shown(&mut self, pos: usize)
        requires
            pos < old(self).id.len(),
        ensures
            final(self).id@ == old(self).id@.remove(pos as int),
            final(self).output_id == old(self).output_id,
    {
        self.id.remove(pos);
    }
}

/// Records the layout built at start-up: the history gets an empty first
/// entry, the three nodes are entered under their names, and the output node
/// becomes the parent of the images.
pub fn setup(
    history: &mut History,
    image_idenifier: &mut ImageIdenifier,
    database: &mut EntityDatabase,
    main_node: u32,
    output_node: u32,
    input_node: u32,
)
    ensures
        old(history).wf() ==> final(history).wf(),
        final(history).entries() == old(history).entries().push(Seq::<char>::empty()),
        final(history).index == old(history).index,
        final(image_idenifier).id == old(image_idenifier).id,
        final(image_idenifier).output_id == Some(output_node),
        final(database).hashmap@ == old(database).hashmap@.insert("main"@, main_node).insert(
            "output"@,
            output_node,
        ).insert("input"@, input_node),
{
    let ghost before = history.vec@;
    history.vec.push(String::new());
    assert(crate::text::views(history.vec@) =~= crate::text::views(before).push(
        Seq::<char>::empty(),
    ));
    database.hashmap.insert(String::from_str("main"), main_node);
    database.hashmap.insert(String::from_str("output"), output_node);
    image_idenifier.output_id = Some(output_node);
    database.hashmap.insert(String::from_str("input"), input_node);
}

/// Records an image that a command showed: the entity is entered under the
/// command's name and appended to the shown images.
pub fn record_image(
    database: &mut EntityDatabase,
    image_idenifier: &mut ImageIdenifier,
    command: &str,
    image: u32,
)
    ensures
        final(database).hashmap@ == old(database).hashmap@.insert(command@, image),
        final(image_idenifier).id@ == old(image_idenifier).id@.push(Some(image)),
        final(image_idenifier).output_id == old(image_idenifier).output_id,
{
    database.hashmap.insert(String::from_str(command), image);
    image_idenifier.id.push(Some(image));
}

/// The entity indices held in `ids`, from the last to the first.
pub open spec fn shown_newest_first(ids: Seq<Option<u32>>) -> Seq<u32>
    decreases ids.len(),
{
    if ids.len() == 0 {
        Seq::empty()
    } else {
        let rest = shown_newest_first(ids.drop_last());
        match ids.last() {
            Some(i) => seq![i] + rest,
            None => rest,
        }
    }
}

/// Law: with a single entry, `clear` removes that image if it is shown.
pub proof fn lemma_clear_single(x: Option<u32>)
    ensures
        shown_newest_first(seq![x]) == match x {
            Some(i) => seq![i],
            None => Seq::<u32>::empty(),
        },
{
    assert(seq![x].drop_last() =~= Seq::<Option<u32>>::empty());
    assert(shown_newest_first(Seq::<Option<u32>>::empty()) == Seq::<u32>::empty());
    assert(seq![x].last() == x);
    if let Some(i) = x {
        assert(seq![i] + Seq::<u32>::empty() =~= seq![i]);
    }
}

/// Law: the images shown after others are removed before them: clearing a
/// list made of two parts removes the second part's images, newest first,
/// then the first part's.
pub proof fn lemma_clear_concat(a: Seq<Option<u32>>, b: Seq<Option<u32>>)
    ensures
        shown_newest_first(a + b) == shown_newest_first(b) + shown_newest_first(a),
    decreases b.len(),
{
    if b.len() == 0 {
        assert(a + b =~= a);
        assert(shown_newest_first(b) + shown_newest_first(a) =~= shown_newest_first(a));
    } else {
        lemma_clear_concat(a, b.drop_last());
        assert((a + b).drop_last() =~= a + b.drop_last());
        assert((a + b).last() == b.last());
        if let Some(i) = b.last() {
            assert(seq![i] + (shown_newest_first(b.drop_last()) + shown_newest_first(a)) =~= (
            seq![i] + shown_newest_first(b.drop_last())) + shown_newest_first(a));
        }
    }
}

/// Law: `clear` removes every shown image and only those: an entity index is
/// in the removal list exactly when it is among the shown images.
pub proof fn lemma_clear_removes_every_shown(ids: Seq<Option<u32>>, i: u32)
    ensures
        shown_newest_first(ids).contains(i) <==> ids.contains(Some(i)),
    decreases ids.len(),
{
    if ids.len() > 0 {
        lemma_clear_removes_every_shown(ids.drop_last(), i);
        let rest = shown_newest_first(ids.drop_last());
        if ids.drop_last().contains(Some(i)) {
            let k = choose|k: int| 0 <= k < ids.drop_last().len() && ids.drop_last()[k] == Some(i);
            assert(ids[k] == Some(i));
        }
        if ids.contains(Some(i)) && !ids.drop_last().contains(Some(i)) {
            let k = choose|k: int| 0 <= k < ids.len() && ids[k] == Some(i);
            if k < ids.len() - 1 {
                assert(ids.drop_last()[k] == Some(i));
            }
            assert(ids.last() == Some(i));
        }
        match ids.last() {
            Some(j) => {
                let r = seq![j] + rest;
                if rest.contains(i) {
                    let k = choose|k: int| 0 <= k < rest.len() && rest[k] == i;
                    assert(r[k + 1] == i);
                }
                if r.contains(i) {
                    let k = choose|k: int| 0 <= k < r.len() && r[k] == i;
                    if k > 0 {
                        assert(rest[k - 1] == i);
                    }
                }
                if j == i {
                    assert(r[0] == i);
                    assert(ids[ids.len() - 1] == Some(i));
                }
            },
            None => {
                if ids.contains(Some(i)) {
                    let k = choose|k: int| 0 <= k < ids.len() && ids[k] == Some(i);
                    assert(ids.drop_last()[k] == Some(i));
                }
            },
        }
    }
}

/// The images that `clear` removes, in the order it removes them: the newest first.
pub fn images_to_clear(ids: &Vec<Option<u32>>) -> (r: Vec<u32>)
    ensures
        r@ == shown_newest_first(ids@),
{
    let mut r: Vec<u32> = Vec::new();
    let mut k: usize = ids.len();
    assert(ids@.take(k as int) =~= ids@);
    assert(r@ + shown_newest_first(ids@) =~= shown_newest_first(ids@));
    while k > 0
        invariant
            k <= ids.len(),
            shown_newest_first(ids@) == r@ + shown_newest_first(ids@.take(k as int)),
        decreases k,
    {
        let ghost pre = ids@.take(k as int);
        assert(pre.drop_last() == ids@.take(k - 1));
        assert(pre.last() == ids@[k - 1]);
        match ids[k - 1] {
            Some(i) => {
                r.push(i);
                assert(r@ + shown_newest_first(ids@.take(k - 1)) =~= r@.drop_last() + (seq![i]
                    + shown_newest_first(ids@.take(k - 1))));
            },
            None => {},
        }
        k = k - 1;
    }
    assert(ids@.take(0) =~= Seq::<Option<u32>>::empty());
    assert(r@ + Seq::<u32>::empty() =~= r@);
    r
}

} // verus!
