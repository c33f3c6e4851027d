//! Recovery of payloads from the module grids of the symbols that were
//! located in a picture: the grids are read one by one, and a grid that
//! cannot be read does not keep the others from being reported.

use vstd::prelude::*;
use rqrr::{DeQRError, Grid, SimpleGrid};
use crate::types::{Ecc, Metadata};

verus! {

/// Why a module grid could not be read.
#[derive(Clone, Copy, Debug, PartialEq, Eq, Structural)]
pub enum DecodeError {
    /// The payload could not be written out.
    IoError,
    /// The data ended before the declared character count was reached.
    DataUnderflow,
    /// The data went on after the symbol's capacity.
    DataOverflow,
    /// A mode indicator of no known mode.
    UnknownDataType,
    /// More errors in a block than its error correction codewords correct.
    DataEcc,
    /// The format information failed its own error check in both places.
    FormatEcc,
    /// The grid's size is that of no version from 1 to 40.
    InvalidVersion,
    /// The grid's size is that of no symbol.
    InvalidGridSize,
    /// The payload is no text in the expected encoding.
    EncodingError,
}

/// The modules of a symbol located in a picture, row by row from the top,
/// `true` for a dark module.
#[derive(Debug)]
pub struct ModuleGrid {
    size: usize,
    modules: Vec<bool>,
}

/// A payload recovered from a symbol, with what the symbol says of itself.
#[derive(Debug)]
pub struct Content {
    pub metadata: Metadata,
    pub payload: Vec<u8>,
}

/// What a module grid of a symbol's size reads as: the version number, the
/// two bits of the error correction level in the format information, and
/// the payload; or why it cannot be read.
pub uninterp spec fn grid_payload(size: nat, modules: Seq<bool>) -> Result<
    (nat, nat, Seq<u8>),
    DecodeError,
>;

/// Whether a side is that of a QR code of a version from 1 to 40.
pub open spec fn is_symbol_size(size: nat) -> bool {
    21 <= size <= 177 && (size - 17) % 4 == 0
}

/// The error correction level that the two bits of the format information
/// denote.
pub open spec fn format_ecc(bits: nat) -> Ecc {
    if bits == 0 {
        Ecc::M
    } else if bits == 1 {
        Ecc::L
    } else if bits == 2 {
        Ecc::H
    } else {
        Ecc::Q
    }
}

/// What a module grid reads as. A grid of no symbol's size is refused with
/// `InvalidGridSize`.
pub open spec fn decode_outcome(size: nat, modules: Seq<bool>) -> Result<
    (Metadata, Seq<u8>),
    DecodeError,
> {
    if !is_symbol_size(size) {
        Err(DecodeError::InvalidGridSize)
    } else {
        match grid_payload(size, modules) {
            Ok((version, level, payload)) => Ok(
                (
                    Metadata {
                        symbol_version: version as usize,
                        error_correction_level: format_ecc(level),
                    },
                    payload,
                ),
            ),
            Err(e) => Err(e),
        }
    }
}

/// The contents of those of the grids that can be read, in the order of the
/// grids.
pub open spec fn readable_contents(grids: Seq<(nat, Seq<bool>)>) -> Seq<(Metadata, Seq<u8>)>
    decreases grids.len(),
{
    if grids.len() == 0 {
        Seq::empty()
    } else {
        let before = readable_contents(grids.drop_last());
        match decode_outcome(grids.last().0, grids.last().1) {
            Ok(content) => before.push(content),
            Err(_) => before,
        }
    }
}

impl ModuleGrid {
    #[verifier::type_invariant]
    spec fn well_formed(self) -> bool {
        self.modules@.len() == self.size * self.size
    }

    /// The number of modules along one side.
    pub closed spec fn spec_size(&self) -> nat {
        self.size as nat
    }

    /// The modules, row by row.
    pub closed spec fn view(&self) -> Seq<bool> {
        self.modules@
    }

    /// A grid of the given side over the modules, or `None` where their
    /// number is not the side squared.
    pub fn new(size: usize, modules: Vec<bool>) -> (r: Option<ModuleGrid>)
        ensures
            match r {
                Some(grid) => {
                    &&& modules@.len() == size * size
                    &&& grid.spec_size() == size
                    &&& grid@ == modules@
                },
                None => modules@.len() != size * size,
            },
    {
        let len = modules.len();
        match size.checked_mul(size) {
            Some(n) => if len == n {
                Some(ModuleGrid { size, modules })
            } else {
                None
            },
            None => None,
        }
    }

    /// The number of modules along one side.
    pub fn size(&self) -> (n: usize)
        ensures
            n == self.spec_size(),
            self@.len() == n * n,
    {
        proof {
            use_type_invariant(self);
        }
        self.size
    }

    /// Tests whether the module in column `x` of row `y` is dark.
    pub fn module(&self, x: usize, y: usize) -> (d: bool)
        requires
            x < self.spec_size(),
            y < self.spec_size(),
        ensures
            d == self@[y * self.spec_size() + x],
    {
        proof {
            use_type_invariant(self);
            assert(y * self.size + x < self.size * self.size) by (nonlinear_arith)
                requires
                    x < self.size,
                    y < self.size,
            ;
        }
        let len = self.modules.len();
        assert(y * self.size + x < len);
        self.modules[y * self.size + x]
    }
}

impl Content {
    /// The content as plain values.
    pub open spec fn view(&self) -> (Metadata, Seq<u8>) {
        (self.metadata, self.payload@)
    }
}

/// The contents as plain values.
pub open spec fn contents_view(contents: Seq<Content>) -> Seq<(Metadata, Seq<u8>)> {
    Seq::new(contents.len(), |i: int| contents[i]@)
}

/// The grids as plain values.
pub open spec fn grids_view(grids: Seq<ModuleGrid>) -> Seq<(nat, Seq<bool>)> {
    Seq::new(grids.len(), |i: int| (grids[i].spec_size(), grids[i]@))
}

/// `SimpleGrid::from_func`, `Grid::new` and `Grid::decode_to`: the format
/// information is read and corrected, the mask undone, the codewords
/// corrected block by block, all of this once more on the mirrored grid
/// where it fails, and the segments unpacked into the payload. The version it
/// reports is the one of the grid's side, and the level is the two bits of
/// the format information. It reads modules at fixed places, which `requires`
/// keeps inside the grid.
#[verifier::external_body]
fn read_grid(grid: &ModuleGrid) -> (r: Result<(usize, u16, Vec<u8>), DecodeError>)
    requires
        is_symbol_size(grid.spec_size()),
    ensures
        match r {
            Ok((version, level, payload)) => {
                &&& grid_payload(grid.spec_size(), grid@) == Ok::<
                    (nat, nat, Seq<u8>),
                    DecodeError,
                >((version as nat, level as nat, payload@))
                &&& version == (grid.spec_size() - 17) / 4
                &&& level <= 3
            },
            Err(e) => grid_payload(grid.spec_size(), grid@) == Err::<
                (nat, nat, Seq<u8>),
                DecodeError,
            >(e),
        },
{
    let mut payload = Vec::new();
    let simple = SimpleGrid::from_func(grid.size, |x, y| grid.module(x, y));
    match Grid::new(simple).decode_to(&mut payload) {
        Ok(meta) => Ok((meta.version.0, meta.ecc_level, payload)),
        Err(DeQRError::IoError) => Err(DecodeError::IoError),
        Err(DeQRError::DataUnderflow) => Err(DecodeError::DataUnderflow),
        Err(DeQRError::DataOverflow) => Err(DecodeError::DataOverflow),
        Err(DeQRError::UnknownDataType) => Err(DecodeError::UnknownDataType),
        Err(DeQRError::DataEcc) => Err(DecodeError::DataEcc),
        Err(DeQRError::FormatEcc) => Err(DecodeError::FormatEcc),
        Err(DeQRError::InvalidVersion) => Err(DecodeError::InvalidVersion),
        Err(DeQRError::InvalidGridSize) => Err(DecodeError::InvalidGridSize),
        Err(DeQRError::EncodingError) => Err(DecodeError::EncodingError),
    }
}

/// Tests whether a side is that of a QR code of a version from 1 to 40.
pub fn symbol_size(size: usize) -> (r: bool)
    ensures
        r == is_symbol_size(size as nat),
{
    21 <= size && size <= 177 && (size - 17) % 4 == 0
}

/// The error correction level that the two bits of the format information
/// denote.
pub fn ecc_from_format(bits: u16) -> (e: Ecc)
    ensures
        e == format_ecc(bits as nat),
{
    if bits == 0 {
        Ecc::M
    } else if bits == 1 {
        Ecc::L
    } else if bits == 2 {
        Ecc::H
    } else {
        Ecc::Q
    }
}

/// Reads a module grid: its version, its error correction level and its
/// payload.
pub fn decode_grid(grid: &ModuleGrid) -> (r: Result<Content, DecodeError>)
    ensures
        match r {
            Ok(content) => decode_outcome(grid.spec_size(), grid@) == Ok::<
                (Metadata, Seq<u8>),
                DecodeError,
            >(content@),
            Err(e) => decode_outcome(grid.spec_size(), grid@) == Err::<
                (Metadata, Seq<u8>),
                DecodeError,
            >(e),
        },
{
    if !symbol_size(grid.size()) {
        return Err(DecodeError::InvalidGridSize);
    }
    match read_grid(grid) {
        Ok((version, level, payload)) => Ok(
            Content { metadata: Metadata::new(version, ecc_from_format(level)), payload },
        ),
        Err(e) => Err(e),
    }
}

/// Reads the grids one by one and keeps the contents of those that can be
/// read, in the order of the grids.
pub fn grids_as_bytes(grids: &Vec<ModuleGrid>) -> (contents: Vec<Content>)
    ensures
        contents_view(contents@) == readable_contents(grids_view(grids@)),
{
    let mut contents: Vec<Content> = Vec::new();
    let n = grids.len();
    let mut i: usize = 0;
    assert(grids_view(grids@).take(0) =~= Seq::<(nat, Seq<bool>)>::empty());
    assert(contents_view(contents@) =~= Seq::<(Metadata, Seq<u8>)>::empty());
    while i < n
        invariant
            n == grids@.len(),
            i <= n,
            contents_view(contents@) == readable_contents(grids_view(grids@).take(i as int)),
        decreases n - i,
    {
        let ghost before = contents_view(contents@);
        let ghost prefix = grids_view(grids@).take(i + 1);
        assert(prefix.drop_last() =~= grids_view(grids@).take(i as int));
        assert(prefix.last() == (grids@[i as int].spec_size(), grids@[i as int]@));
        match decode_grid(&grids[i]) {
            Ok(content) => {
                contents.push(content);
                assert(contents_view(contents@) =~= before.push(content@));
            },
            Err(_) => {},
        }
        i += 1;
    }
    assert(grids_view(grids@).take(n as int) =~= grids_view(grids@));
    contents
}

/// Failures are isolated: the contents of two runs of grids, one after the
/// other, are the contents of the first run followed by those of the second,
/// whatever fails in either.
pub proof fn lemma_readable_contents_of_two_runs(
    first: Seq<(nat, Seq<bool>)>,
    second: Seq<(nat, Seq<bool>)>,
)
    ensures
        readable_contents(first + second) == readable_contents(first) + readable_contents(second),
    decreases second.len(),
{
    if second.len() == 0 {
        assert(first + second =~= first);
        assert(readable_contents(first) + readable_contents(second) =~= readable_contents(first));
    } else {
        let all = first + second;
        assert(all.drop_last() =~= first + second.drop_last());
        assert(all.last() == second.last());
        lemma_readable_contents_of_two_runs(first, second.drop_last());
        match decode_outcome(second.last().0, second.last().1) {
            Ok(content) => {
                assert(readable_contents(all) =~= readable_contents(first) + readable_contents(
                    second,
                ));
            },
            Err(_) => {},
        }
    }
}

/// A grid that cannot be read adds nothing: the contents are those of the
/// grids before it followed by those of the grids after it.
pub proof fn lemma_unreadable_grid_is_left_out(grids: Seq<(nat, Seq<bool>)>, i: int)
    requires
        0 <= i < grids.len(),
        decode_outcome(grids[i].0, grids[i].1) is Err,
    ensures
        readable_contents(grids) == readable_contents(grids.take(i)) + readable_contents(
            grids.skip(i + 1),
        ),
{
    let one = seq![grids[i]];
    assert(grids =~= grids.take(i) + (one + grids.skip(i + 1)));
    lemma_readable_contents_of_two_runs(grids.take(i), one + grids.skip(i + 1));
    lemma_readable_contents_of_two_runs(one, grids.skip(i + 1));
    assert(one.drop_last() =~= Seq::<(nat, Seq<bool>)>::empty());
    assert(readable_contents(one) =~= Seq::<(Metadata, Seq<u8>)>::empty()) by {
        reveal_with_fuel(readable_contents, 2);
    }
    assert(readable_contents(one) + readable_contents(grids.skip(i + 1)) =~= readable_contents(
        grids.skip(i + 1),
    ));
}

/// No more contents come out than grids go in, and every content is what
/// one of the grids reads as.
pub proof fn lemma_readable_contents_come_from_grids(grids: Seq<(nat, Seq<bool>)>)
    ensures
        readable_contents(grids).len() <= grids.len(),
        forall|k: int|
            0 <= k < readable_contents(grids).len() ==> exists|i: int|
                0 <= i < grids.len() && decode_outcome(grids[i].0, grids[i].1) == Ok::<
                    (Metadata, Seq<u8>),
                    DecodeError,
                >(#[trigger] readable_contents(grids)[k]),
    decreases grids.len(),
{
    if grids.len() > 0 {
        let before = grids.drop_last();
        lemma_readable_contents_come_from_grids(before);
        assert forall|k: int| 0 <= k < readable_contents(grids).len() implies exists|i: int|
            0 <= i < grids.len() && decode_outcome(grids[i].0, grids[i].1) == Ok::<
                (Metadata, Seq<u8>),
                DecodeError,
            >(#[trigger] readable_contents(grids)[k]) by {
            if k < readable_contents(before).len() {
                let i = choose|i: int|
                    0 <= i < before.len() && decode_outcome(before[i].0, before[i].1) == Ok::<
                        (Metadata, Seq<u8>),
                        DecodeError,
                    >(readable_contents(before)[k]);
                assert(grids[i] == before[i]);
            } else {
                let i = grids.len() - 1;
                assert(decode_outcome(grids[i].0, grids[i].1) == Ok::<
                    (Metadata, Seq<u8>),
                    DecodeError,
                >(readable_contents(grids)[k]));
            }
        }
    }
}

/// A grid that cannot be read gives nothing and fails nothing: where one
/// grid is found and it reads as an error, there are no contents.
pub proof fn lemma_single_unreadable_grid_gives_nothing(grid: (nat, Seq<bool>))
    requires
        decode_outcome(grid.0, grid.1) is Err,
    ensures
        readable_contents(seq![grid]) == Seq::<(Metadata, Seq<u8>)>::empty(),
{
    lemma_unreadable_grid_is_left_out(seq![grid], 0);
    assert(seq![grid].take(0) =~= Seq::<(nat, Seq<bool>)>::empty());
    assert(seq![grid].skip(1) =~= Seq::<(nat, Seq<bool>)>::empty());
}

/// Two grids that can be read give two contents, each grid its own, in the
/// order of the grids: none is missed, none is reported twice and nothing
/// else is reported.
pub proof fn lemma_two_readable_grids_give_two_contents(
    first: (nat, Seq<bool>),
    second: (nat, Seq<bool>),
)
    requires
        decode_outcome(first.0, first.1) is Ok,
        decode_outcome(second.0, second.1) is Ok,
    ensures
        readable_contents(seq![first, second]) == seq![
            decode_outcome(first.0, first.1)->Ok_0,
            decode_outcome(second.0, second.1)->Ok_0,
        ],
{
    let both = seq![first, second];
    let one = seq![first];
    assert(both.drop_last() =~= one);
    assert(one.drop_last() =~= Seq::<(nat, Seq<bool>)>::empty());
    assert(readable_contents(one) =~= seq![decode_outcome(first.0, first.1)->Ok_0]) by {
        reveal_with_fuel(readable_contents, 2);
    }
    assert(readable_contents(both) =~= seq![
        decode_outcome(first.0, first.1)->Ok_0,
        decode_outcome(second.0, second.1)->Ok_0,
    ]);
}

} // verus!
