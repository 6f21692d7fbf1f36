//! The tree of image file directories of a file, held in an `atree` arena.

use vstd::prelude::*;

use atree::Error as TreeError;
use atree::{Arena, Token};

use crate::tiff::directory::{IfdModel, ImageFileDirectory};

verus! {

/// A tree, or several, whose nodes are reached by token.
#[verifier::external_type_specification]
#[verifier::external_body]
#[verifier::reject_recursive_types(T)]
pub struct ExArena<T>(Arena<T>);

/// What a node of an arena is reached by.
#[verifier::external_type_specification]
#[verifier::external_body]
pub struct ExToken(Token);

/// Why a node could not be appended.
#[verifier::external_type_specification]
#[verifier::external_body]
pub struct ExTreeError(TreeError);

/// The data of each live node of an arena.
pub uninterp spec fn arena_nodes(arena: Arena<ImageFileDirectory>) -> Map<
    Token,
    ImageFileDirectory,
>;

/// The children of each live node of an arena, in order.
pub uninterp spec fn arena_children(arena: Arena<ImageFileDirectory>) -> Map<Token, Seq<Token>>;

/// The live nodes of an arena that have neither a parent nor a sibling.
pub uninterp spec fn arena_lone_roots(arena: Arena<ImageFileDirectory>) -> Set<Token>;

/// What the node `token` holds.
pub open spec fn tree_page(arena: Arena<ImageFileDirectory>, token: Token) -> IfdModel {
    arena_nodes(arena)[token]@
}

/// What the children of the node `token` hold.
pub open spec fn tree_children(arena: Arena<ImageFileDirectory>, token: Token) -> Seq<IfdModel> {
    Seq::new(
        arena_children(arena)[token].len(),
        |i: int| arena_nodes(arena)[arena_children(arena)[token][i]]@,
    )
}

/// `atree::Arena::with_data`: an arena of one node that holds `data`.
#[verifier::external_body]
pub(crate) fn arena_with_data(data: ImageFileDirectory) -> (r: (Arena<ImageFileDirectory>, Token))
    ensures
        arena_nodes(r.0) == Map::<Token, ImageFileDirectory>::empty().insert(r.1, data),
        arena_children(r.0) == Map::<Token, Seq<Token>>::empty().insert(r.1, Seq::empty()),
        arena_lone_roots(r.0) == Set::<Token>::empty().insert(r.1),
{
    Arena::with_data(data)
}

/// `atree::Arena::new_node`: adds a node that holds `data`, with no parent and no children, under
/// a token that no live node has.
#[verifier::external_body]
pub(crate) fn arena_new_node(arena: &mut Arena<ImageFileDirectory>, data: ImageFileDirectory) -> (r:
    Token)
    ensures
        !arena_nodes(*old(arena)).contains_key(r),
        arena_nodes(*final(arena)) == arena_nodes(*old(arena)).insert(r, data),
        arena_children(*final(arena)) == arena_children(*old(arena)).insert(r, Seq::empty()),
        arena_lone_roots(*final(arena)) == arena_lone_roots(*old(arena)).insert(r),
{
    arena.new_node(data)
}

/// `atree::Token::append_node`: makes the lone root `other` the last child of `parent`.
///
/// The call fails only where `other` has a parent or a sibling. It is made here with a leaf, so
/// that no node becomes its own descendant.
#[verifier::external_body]
pub(crate) fn arena_append_node(
    parent: Token,
    arena: &mut Arena<ImageFileDirectory>,
    other: Token,
) -> (r: Result<(), TreeError>)
    requires
        arena_nodes(*old(arena)).contains_key(parent),
        arena_nodes(*old(arena)).contains_key(other),
        arena_children(*old(arena))[other].len() == 0,
        arena_lone_roots(*old(arena)).contains(other),
        parent != other,
    ensures
        r is Ok,
        arena_nodes(*final(arena)) == arena_nodes(*old(arena)),
        arena_children(*final(arena)) == arena_children(*old(arena)).insert(
            parent,
            arena_children(*old(arena))[parent].push(other),
        ),
        arena_lone_roots(*final(arena)) == arena_lone_roots(*old(arena)).remove(other),
{
    parent.append_node(arena, other)
}

/// `atree::Arena`'s `Index` and `atree::Node`'s `data`: the data of a live node.
#[verifier::external_body]
pub(crate) fn arena_data(arena: &Arena<ImageFileDirectory>, token: Token) -> (r:
    &ImageFileDirectory)
    requires
        arena_nodes(*arena).contains_key(token),
    ensures
        *r == arena_nodes(*arena)[token],
{
    &arena[token].data
}

/// `atree::Arena`'s `IndexMut` and `atree::Node`'s `data`: the data of a live node, open to
/// change.
#[verifier::external_body]
pub(crate) fn arena_data_mut(arena: &mut Arena<ImageFileDirectory>, token: Token) -> (r:
    &mut ImageFileDirectory)
    requires
        arena_nodes(*old(arena)).contains_key(token),
    ensures
        *r == arena_nodes(*old(arena))[token],
        arena_nodes(*final(arena)) == arena_nodes(*old(arena)).insert(token, *final(r)),
        arena_children(*final(arena)) == arena_children(*old(arena)),
        arena_lone_roots(*final(arena)) == arena_lone_roots(*old(arena)),
{
    &mut arena[token].data
}

/// `atree::Token::children`: the data of the children of a live node, in order.
#[verifier::external_body]
pub(crate) fn arena_children_data(arena: &Arena<ImageFileDirectory>, token: Token) -> (r: Vec<
    &ImageFileDirectory,
>)
    requires
        arena_nodes(*arena).contains_key(token),
    ensures
        r@.len() == arena_children(*arena)[token].len(),
        forall|i: int|
            0 <= i < r@.len() ==> *(#[trigger] r@[i]) == arena_nodes(*arena)[arena_children(
                *arena,
            )[token][i]],
{
    token.children(arena).map(|node| &node.data).collect()
}

} // verus!
