//! One record type per statistic category, each a fixed set of named numeric
//! fields plus the player identity, parsed from one comma-separated row with
//! a schema-fixed column order. The shared trait exposes, for the scorer,
//! which feature names the record answers to and the double bit pattern of
//! each field.

use vstd::prelude::*;
use vstd::string::*;
use crate::fbits::double_of_i64;
use crate::fbits::double_of_u32;
use crate::fbits::parse_double;
use crate::fbits::parse_score;
use crate::fbits::score_of_i64;
use crate::fbits::score_of_u32;
use crate::numparse::parse_i64;
use crate::numparse::parse_i64_spec;
use crate::numparse::parse_u32;
use crate::numparse::parse_u32_spec;
use crate::text::seq_views;
use crate::text::str_eq;

verus! {

/// Why one row of a statistic table is rejected: too few columns, or a
/// numeric column (the first such, with its text) that does not parse.
#[derive(Debug, PartialEq, Clone)]
pub enum RowError {
    TooShort,
    BadValue { column: usize, value: String },
}

/// A category record: player identity, and a finite map from feature names
/// to field values as double bit patterns.
pub trait StatRecord: Sized {
    /// The field value (as double bits) the record exposes under `key`, if
    /// that feature name belongs to the category's schema.
    spec fn field_bits(&self, key: Seq<char>) -> Option<u64>;

    /// The player identity.
    spec fn player_view(&self) -> Seq<char>;

    /// Number of columns a row must have at least.
    spec fn row_width() -> int;

    /// Column `c` of the row is numeric and its text does not parse per the
    /// schema's declared type for that column.
    spec fn col_fails(cols: Seq<Seq<char>>, c: int) -> bool;

    /// The record's fields are exactly what the row's columns parse to.
    spec fn matches_row(&self, cols: Seq<Seq<char>>) -> bool;

    /// The field value under `key` computed straight from the row's columns.
    spec fn row_field_bits(cols: Seq<Seq<char>>, key: Seq<char>) -> Option<u64>;

    /// A record parsed from a row answers to exactly the field values of
    /// that row, and carries the row's player column.
    proof fn lemma_fields_from_row(&self, cols: Seq<Seq<char>>)
        requires
            cols.len() >= Self::row_width(),
            forall|c: int| 2 <= c < Self::row_width() ==> !Self::col_fails(cols, c),
            self.matches_row(cols),
        ensures
            forall|key: Seq<char>| self.field_bits(key) == Self::row_field_bits(cols, key),
            self.player_view() == cols[1],
    ;

    fn player(&self) -> (p: &String)
        ensures
            p@ == self.player_view(),
    ;

    fn lookup(&self, key: &str) -> (o: Option<u64>)
        ensures
            o == self.field_bits(key@),
    ;

    /// Parse one row: succeeds exactly when the row has enough columns and
    /// every numeric column parses, and the record then matches the row;
    /// otherwise the error names the first failing column and its verbatim
    /// text, or that the row is short.
    fn parse_row(cols: &Vec<String>) -> (r: Result<Self, RowError>)
        ensures
            ({
                let cv = seq_views(cols@);
                match r {
                    Ok(rec) => {
                        &&& cv.len() >= Self::row_width()
                        &&& (forall|c: int| 2 <= c < Self::row_width() ==> !Self::col_fails(cv, c))
                        &&& rec.matches_row(cv)
                    },
                    Err(RowError::TooShort) => cv.len() < Self::row_width(),
                    Err(RowError::BadValue { column, value }) => {
                        &&& cv.len() >= Self::row_width()
                        &&& 2 <= column < Self::row_width()
                        &&& Self::col_fails(cv, column as int)
                        &&& (forall|c: int| 2 <= c < column ==> !Self::col_fails(cv, c))
                        &&& value@ == cv[column as int]
                    },
                }
            }),
    ;
}

/// A row has enough columns and every numeric column parses.
pub open spec fn row_ok<R: StatRecord>(cols: Seq<Seq<char>>) -> bool {
    &&& cols.len() >= R::row_width()
    &&& forall|c: int| 2 <= c < R::row_width() ==> !R::col_fails(cols, c)
}

/// What a row-parse error tells: a short row, or the first failing numeric
/// column together with its verbatim text.
pub open spec fn row_error_ok<R: StatRecord>(e: RowError, cols: Seq<Seq<char>>) -> bool {
    match e {
        RowError::TooShort => cols.len() < R::row_width(),
        RowError::BadValue { column, value } => {
            &&& cols.len() >= R::row_width()
            &&& 2 <= column < R::row_width()
            &&& R::col_fails(cols, column as int)
            &&& (forall|c: int| 2 <= c < column ==> !R::col_fails(cols, c))
            &&& value@ == cols[column as int]
        },
    }
}

/// Defensive statistics of one player in one match.
#[derive(Debug)]
pub struct DefenseRecord {
    pub player: String,
    pub tkl: u32,
    pub tklw: u32,
    pub def3rd: u32,
    pub mid3rd: u32,
    pub att3rd: u32,
    pub att: u32,
    pub lost: u32,
    pub blocks: u32,
    pub sh: u32,
    pub pass: u32,
}

impl StatRecord for DefenseRecord {
    open spec fn field_bits(&self, key: Seq<char>) -> Option<u64> {
        if key == "tkl"@ {
            Some(double_of_u32(self.tkl))
        } else if key == "tklw"@ {
            Some(double_of_u32(self.tklw))
        } else if key == "def3rd"@ {
            Some(double_of_u32(self.def3rd))
        } else if key == "mid3rd"@ {
            Some(double_of_u32(self.mid3rd))
        } else if key == "att3rd"@ {
            Some(double_of_u32(self.att3rd))
        } else if key == "att"@ {
            Some(double_of_u32(self.att))
        } else if key == "lost"@ {
            Some(double_of_u32(self.lost))
        } else if key == "blocks"@ {
            Some(double_of_u32(self.blocks))
        } else if key == "sh"@ {
            Some(double_of_u32(self.sh))
        } else if key == "pass"@ {
            Some(double_of_u32(self.pass))
        } else {
            None
        }
    }

    open spec fn player_view(&self) -> Seq<char> {
        self.player@
    }

    open spec fn row_width() -> int {
        12
    }

    open spec fn col_fails(cols: Seq<Seq<char>>, c: int) -> bool {
        2 <= c < 12 && parse_u32_spec(cols[c]) is None
    }

    open spec fn matches_row(&self, cols: Seq<Seq<char>>) -> bool {
        &&& self.player@ == cols[1]
        &&& parse_u32_spec(cols[2]) == Some(self.tkl)
        &&& parse_u32_spec(cols[3]) == Some(self.tklw)
        &&& parse_u32_spec(cols[4]) == Some(self.def3rd)
        &&& parse_u32_spec(cols[5]) == Some(self.mid3rd)
        &&& parse_u32_spec(cols[6]) == Some(self.att3rd)
        &&& parse_u32_spec(cols[7]) == Some(self.att)
        &&& parse_u32_spec(cols[8]) == Some(self.lost)
        &&& parse_u32_spec(cols[9]) == Some(self.blocks)
        &&& parse_u32_spec(cols[10]) == Some(self.sh)
        &&& parse_u32_spec(cols[11]) == Some(self.pass)
    }

    open spec fn row_field_bits(cols: Seq<Seq<char>>, key: Seq<char>) -> Option<u64> {
        if key == "tkl"@ {
            Some(double_of_u32(parse_u32_spec(cols[2]).unwrap()))
        } else if key == "tklw"@ {
            Some(double_of_u32(parse_u32_spec(cols[3]).unwrap()))
        } else if key == "def3rd"@ {
            Some(double_of_u32(parse_u32_spec(cols[4]).unwrap()))
        } else if key == "mid3rd"@ {
            Some(double_of_u32(parse_u32_spec(cols[5]).unwrap()))
        } else if key == "att3rd"@ {
            Some(double_of_u32(parse_u32_spec(cols[6]).unwrap()))
        } else if key == "att"@ {
            Some(double_of_u32(parse_u32_spec(cols[7]).unwrap()))
        } else if key == "lost"@ {
            Some(double_of_u32(parse_u32_spec(cols[8]).unwrap()))
        } else if key == "blocks"@ {
            Some(double_of_u32(parse_u32_spec(cols[9]).unwrap()))
        } else if key == "sh"@ {
            Some(double_of_u32(parse_u32_spec(cols[10]).unwrap()))
        } else if key == "pass"@ {
            Some(double_of_u32(parse_u32_spec(cols[11]).unwrap()))
        } else {
            None
        }
    }

    proof fn lemma_fields_from_row(&self, cols: Seq<Seq<char>>) {
    }

    fn player(&self) -> (p: &String) {
        &self.player
    }

    fn lookup(&self, key: &str) -> (o: Option<u64>) {
        if str_eq(key, "tkl") {
            Some(score_of_u32(self.tkl))
        } else if str_eq(key, "tklw") {
            Some(score_of_u32(self.tklw))
        } else if str_eq(key, "def3rd") {
            Some(score_of_u32(self.def3rd))
        } else if str_eq(key, "mid3rd") {
            Some(score_of_u32(self.mid3rd))
        } else if str_eq(key, "att3rd") {
            Some(score_of_u32(self.att3rd))
        } else if str_eq(key, "att") {
            Some(score_of_u32(self.att))
        } else if str_eq(key, "lost") {
            Some(score_of_u32(self.lost))
        } else if str_eq(key, "blocks") {
            Some(score_of_u32(self.blocks))
        } else if str_eq(key, "sh") {
            Some(score_of_u32(self.sh))
        } else if str_eq(key, "pass") {
            Some(score_of_u32(self.pass))
        } else {
            None
        }
    }

    fn parse_row(cols: &Vec<String>) -> (r: Result<Self, RowError>) {
        if cols.len() < 12 {
            return Err(RowError::TooShort);
        }
        let tkl = match parse_u32(cols[2].as_str()) {
            Some(v) => v,
            None => {
                return Err(RowError::BadValue { column: 2, value: cols[2].clone() });
            },
        };
        let tklw = match parse_u32(cols[3].as_str()) {
            Some(v) => v,
            None => {
                return Err(RowError::BadValue { column: 3, value: cols[3].clone() });
            },
        };
        let def3rd = match parse_u32(cols[4].as_str()) {
            Some(v) => v,
            None => {
                return Err(RowError::BadValue { column: 4, value: cols[4].clone() });
            },
        };
        let mid3rd = match parse_u32(cols[5].as_str()) {
            Some(v) => v,
            None => {
                return Err(RowError::BadValue { column: 5, value: cols[5].clone() });
            },
        };
        let att3rd = match parse_u32(cols[6].as_str()) {
            Some(v) => v,
            None => {
                return Err(RowError::BadValue { column: 6, value: cols[6].clone() });
            },
        };
        let att = match parse_u32(cols[7].as_str()) {
            Some(v) => v,
            None => {
                return Err(RowError::BadValue { column: 7, value: cols[7].clone() });
            },
        };
        let lost = match parse_u32(cols[8].as_str()) {
            Some(v) => v,
            None => {
                return Err(RowError::BadValue { column: 8, value: cols[8].clone() });
            },
        };
        let blocks = match parse_u32(cols[9].as_str()) {
            Some(v) => v,
            None => {
                return Err(RowError::BadValue { column: 9, value: cols[9].clone() });
            },
        };
        let sh = match parse_u32(cols[10].as_str()) {
            Some(v) => v,
            None => {
                return Err(RowError::BadValue { column: 10, value: cols[10].clone() });
            },
        };
        let pass = match parse_u32(cols[11].as_str()) {
            Some(v) => v,
            None => {
                return Err(RowError::BadValue { column: 11, value: cols[11].clone() });
            },
        };
        Ok(DefenseRecord {
            player: cols[1].clone(),
            tkl,
            tklw,
            def3rd,
            mid3rd,
            att3rd,
            att,
            lost,
            blocks,
            sh,
            pass,
        })
    }
}

/// Attacking statistics of one player in one match. The expected-goals
/// fields (`xg`, `npxg`, `xag`) are doubles, carried as bit patterns; the
/// rest are integers.
#[derive(Debug)]
pub struct AttackRecord {
    pub player: String,
    pub gls: i64,
    pub ast: i64,
    pub pk: i64,
    pub pkatt: i64,
    pub sh: i64,
    pub sot: i64,
    pub crdy: i64,
    pub crdr: i64,
    pub touches: i64,
    pub tkl: i64,
    pub int_: i64,
    pub blocks: i64,
    pub xg: u64,
    pub npxg: u64,
    pub xag: u64,
    pub sca: i64,
    pub gca: i64,
    pub cmp: i64,
    pub att: i64,
    pub prgp: i64,
    pub carries: i64,
    pub prgc: i64,
    pub succ: i64,
}

impl StatRecord for AttackRecord {
    open spec fn field_bits(&self, key: Seq<char>) -> Option<u64> {
        if key == "gls"@ {
            Some(double_of_i64(self.gls))
        } else if key == "ast"@ {
            Some(double_of_i64(self.ast))
        } else if key == "pk"@ {
            Some(double_of_i64(self.pk))
        } else if key == "pkatt"@ {
            Some(double_of_i64(self.pkatt))
        } else if key == "sh"@ {
            Some(double_of_i64(self.sh))
        } else if key == "sot"@ {
            Some(double_of_i64(self.sot))
        } else if key == "crdy"@ {
            Some(double_of_i64(self.crdy))
        } else if key == "crdr"@ {
            Some(double_of_i64(self.crdr))
        } else if key == "touches"@ {
            Some(double_of_i64(self.touches))
        } else if key == "tkl"@ {
            Some(double_of_i64(self.tkl))
        } else if key == "int_"@ {
            Some(double_of_i64(self.int_))
        } else if key == "blocks"@ {
            Some(double_of_i64(self.blocks))
        } else if key == "xg"@ {
            Some(self.xg)
        } else if key == "npxg"@ {
            Some(self.npxg)
        } else if key == "xag"@ {
            Some(self.xag)
        } else if key == "sca"@ {
            Some(double_of_i64(self.sca))
        } else if key == "gca"@ {
            Some(double_of_i64(self.gca))
        } else if key == "cmp"@ {
            Some(double_of_i64(self.cmp))
        } else if key == "att"@ {
            Some(double_of_i64(self.att))
        } else if key == "prgp"@ {
            Some(double_of_i64(self.prgp))
        } else if key == "carries"@ {
            Some(double_of_i64(self.carries))
        } else if key == "prgc"@ {
            Some(double_of_i64(self.prgc))
        } else if key == "succ"@ {
            Some(double_of_i64(self.succ))
        } else {
            None
        }
    }

    open spec fn player_view(&self) -> Seq<char> {
        self.player@
    }

    open spec fn row_width() -> int {
        25
    }

    open spec fn col_fails(cols: Seq<Seq<char>>, c: int) -> bool {
        if 14 <= c < 17 {
            parse_double(cols[c]) is None
        } else {
            2 <= c < 25 && parse_i64_spec(cols[c]) is None
        }
    }

    open spec fn matches_row(&self, cols: Seq<Seq<char>>) -> bool {
        &&& self.player@ == cols[1]
        &&& parse_i64_spec(cols[2]) == Some(self.gls)
        &&& parse_i64_spec(cols[3]) == Some(self.ast)
        &&& parse_i64_spec(cols[4]) == Some(self.pk)
        &&& parse_i64_spec(cols[5]) == Some(self.pkatt)
        &&& parse_i64_spec(cols[6]) == Some(self.sh)
        &&& parse_i64_spec(cols[7]) == Some(self.sot)
        &&& parse_i64_spec(cols[8]) == Some(self.crdy)
        &&& parse_i64_spec(cols[9]) == Some(self.crdr)
        &&& parse_i64_spec(cols[10]) == Some(self.touches)
        &&& parse_i64_spec(cols[11]) == Some(self.tkl)
        &&& parse_i64_spec(cols[12]) == Some(self.int_)
        &&& parse_i64_spec(cols[13]) == Some(self.blocks)
        &&& parse_double(cols[14]) == Some(self.xg)
        &&& parse_double(cols[15]) == Some(self.npxg)
        &&& parse_double(cols[16]) == Some(self.xag)
        &&& parse_i64_spec(cols[17]) == Some(self.sca)
        &&& parse_i64_spec(cols[18]) == Some(self.gca)
        &&& parse_i64_spec(cols[19]) == Some(self.cmp)
        &&& parse_i64_spec(cols[20]) == Some(self.att)
        &&& parse_i64_spec(cols[21]) == Some(self.prgp)
        &&& parse_i64_spec(cols[22]) == Some(self.carries)
        &&& parse_i64_spec(cols[23]) == Some(self.prgc)
        &&& parse_i64_spec(cols[24]) == Some(self.succ)
    }

    open spec fn row_field_bits(cols: Seq<Seq<char>>, key: Seq<char>) -> Option<u64> {
        if key == "gls"@ {
            Some(double_of_i64(parse_i64_spec(cols[2]).unwrap()))
        } else if key == "ast"@ {
            Some(double_of_i64(parse_i64_spec(cols[3]).unwrap()))
        } else if key == "pk"@ {
            Some(double_of_i64(parse_i64_spec(cols[4]).unwrap()))
        } else if key == "pkatt"@ {
            Some(double_of_i64(parse_i64_spec(cols[5]).unwrap()))
        } else if key == "sh"@ {
            Some(double_of_i64(parse_i64_spec(cols[6]).unwrap()))
        } else if key == "sot"@ {
            Some(double_of_i64(parse_i64_spec(cols[7]).unwrap()))
        } else if key == "crdy"@ {
            Some(double_of_i64(parse_i64_spec(cols[8]).unwrap()))
        } else if key == "crdr"@ {
            Some(double_of_i64(parse_i64_spec(cols[9]).unwrap()))
        } else if key == "touches"@ {
            Some(double_of_i64(parse_i64_spec(cols[10]).unwrap()))
        } else if key == "tkl"@ {
            Some(double_of_i64(parse_i64_spec(cols[11]).unwrap()))
        } else if key == "int_"@ {
            Some(double_of_i64(parse_i64_spec(cols[12]).unwrap()))
        } else if key == "blocks"@ {
            Some(double_of_i64(parse_i64_spec(cols[13]).unwrap()))
        } else if key == "xg"@ {
            Some(parse_double(cols[14]).unwrap())
        } else if key == "npxg"@ {
            Some(parse_double(cols[15]).unwrap())
        } else if key == "xag"@ {
            Some(parse_double(cols[16]).unwrap())
        } else if key == "sca"@ {
            Some(double_of_i64(parse_i64_spec(cols[17]).unwrap()))
        } else if key == "gca"@ {
            Some(double_of_i64(parse_i64_spec(cols[18]).unwrap()))
        } else if key == "cmp"@ {
            Some(double_of_i64(parse_i64_spec(cols[19]).unwrap()))
        } else if key == "att"@ {
            Some(double_of_i64(parse_i64_spec(cols[20]).unwrap()))
        } else if key == "prgp"@ {
            Some(double_of_i64(parse_i64_spec(cols[21]).unwrap()))
        } else if key == "carries"@ {
            Some(double_of_i64(parse_i64_spec(cols[22]).unwrap()))
        } else if key == "prgc"@ {
            Some(double_of_i64(parse_i64_spec(cols[23]).unwrap()))
        } else if key == "succ"@ {
            Some(double_of_i64(parse_i64_spec(cols[24]).unwrap()))
        } else {
            None
        }
    }

    proof fn lemma_fields_from_row(&self, cols: Seq<Seq<char>>) {
    }

    fn player(&self) -> (p: &String) {
        &self.player
    }

    fn lookup(&self, key: &str) -> (o: Option<u64>) {
        if str_eq(key, "gls") {
            Some(score_of_i64(self.gls))
        } else if str_eq(key, "ast") {
            Some(score_of_i64(self.ast))
        } else if str_eq(key, "pk") {
            Some(score_of_i64(self.pk))
        } else if str_eq(key, "pkatt") {
            Some(score_of_i64(self.pkatt))
        } else if str_eq(key, "sh") {
            Some(score_of_i64(self.sh))
        } else if str_eq(key, "sot") {
            Some(score_of_i64(self.sot))
        } else if str_eq(key, "crdy") {
            Some(score_of_i64(self.crdy))
        } else if str_eq(key, "crdr") {
            Some(score_of_i64(self.crdr))
        } else if str_eq(key, "touches") {
            Some(score_of_i64(self.touches))
        } else if str_eq(key, "tkl") {
            Some(score_of_i64(self.tkl))
        } else if str_eq(key, "int_") {
            Some(score_of_i64(self.int_))
        } else if str_eq(key, "blocks") {
            Some(score_of_i64(self.blocks))
        } else if str_eq(key, "xg") {
            Some(self.xg)
        } else if str_eq(key, "npxg") {
            Some(self.npxg)
        } else if str_eq(key, "xag") {
            Some(self.xag)
        } else if str_eq(key, "sca") {
            Some(score_of_i64(self.sca))
        } else if str_eq(key, "gca") {
            Some(score_of_i64(self.gca))
        } else if str_eq(key, "cmp") {
            Some(score_of_i64(self.cmp))
        } else if str_eq(key, "att") {
            Some(score_of_i64(self.att))
        } else if str_eq(key, "prgp") {
            Some(score_of_i64(self.prgp))
        } else if str_eq(key, "carries") {
            Some(score_of_i64(self.carries))
        } else if str_eq(key, "prgc") {
            Some(score_of_i64(self.prgc))
        } else if str_eq(key, "succ") {
            Some(score_of_i64(self.succ))
        } else {
            None
        }
    }

    fn parse_row(cols: &Vec<String>) -> (r: Result<Self, RowError>) {
        if cols.len() < 25 {
            return Err(RowError::TooShort);
        }
        let gls = match parse_i64(cols[2].as_str()) {
            Some(v) => v,
            None => {
                return Err(RowError::BadValue { column: 2, value: cols[2].clone() });
            },
        };
        let ast = match parse_i64(cols[3].as_str()) {
            Some(v) => v,
            None => {
                return Err(RowError::BadValue { column: 3, value: cols[3].clone() });
            },
        };
        let pk = match parse_i64(cols[4].as_str()) {
            Some(v) => v,
            None => {
                return Err(RowError::BadValue { column: 4, value: cols[4].clone() });
            },
        };
        let pkatt = match parse_i64(cols[5].as_str()) {
            Some(v) => v,
            None => {
                return Err(RowError::BadValue { column: 5, value: cols[5].clone() });
            },
        };
        let sh = match parse_i64(cols[6].as_str()) {
            Some(v) => v,
            None => {
                return Err(RowError::BadValue { column: 6, value: cols[6].clone() });
            },
        };
        let sot = match parse_i64(cols[7].as_str()) {
            Some(v) => v,
            None => {
                return Err(RowError::BadValue { column: 7, value: cols[7].clone() });
            },
        };
        let crdy = match parse_i64(cols[8].as_str()) {
            Some(v) => v,
            None => {
                return Err(RowError::BadValue { column: 8, value: cols[8].clone() });
            },
        };
        let crdr = match parse_i64(cols[9].as_str()) {
            Some(v) => v,
            None => {
                return Err(RowError::BadValue { column: 9, value: cols[9].clone() });
            },
        };
        let touches = match parse_i64(cols[10].as_str()) {
            Some(v) => v,
            None => {
                return Err(RowError::BadValue { column: 10, value: cols[10].clone() });
            },
        };
        let tkl = match parse_i64(cols[11].as_str()) {
            Some(v) => v,
            None => {
                return Err(RowError::BadValue { column: 11, value: cols[11].clone() });
            },
        };
        let int_ = match parse_i64(cols[12].as_str()) {
            Some(v) => v,
            None => {
                return Err(RowError::BadValue { column: 12, value: cols[12].clone() });
            },
        };
        let blocks = match parse_i64(cols[13].as_str()) {
            Some(v) => v,
            None => {
                return Err(RowError::BadValue { column: 13, value: cols[13].clone() });
            },
        };
        let xg = match parse_score(cols[14].as_str()) {
            Some(v) => v,
            None => {
                return Err(RowError::BadValue { column: 14, value: cols[14].clone() });
            },
        };
        let npxg = match parse_score(cols[15].as_str()) {
            Some(v) => v,
            None => {
                return Err(RowError::BadValue { column: 15, value: cols[15].clone() });
            },
        };
        let xag = match parse_score(cols[16].as_str()) {
            Some(v) => v,
            None => {
                return Err(RowError::BadValue { column: 16, value: cols[16].clone() });
            },
        };
        let sca = match parse_i64(cols[17].as_str()) {
            Some(v) => v,
            None => {
                return Err(RowError::BadValue { column: 17, value: cols[17].clone() });
            },
        };
        let gca = match parse_i64(cols[18].as_str()) {
            Some(v) => v,
            None => {
                return Err(RowError::BadValue { column: 18, value: cols[18].clone() });
            },
        };
        let cmp = match parse_i64(cols[19].as_str()) {
            Some(v) => v,
            None => {
                return Err(RowError::BadValue { column: 19, value: cols[19].clone() });
            },
        };
        let att = match parse_i64(cols[20].as_str()) {
            Some(v) => v,
            None => {
                return Err(RowError::BadValue { column: 20, value: cols[20].clone() });
            },
        };
        let prgp = match parse_i64(cols[21].as_str()) {
            Some(v) => v,
            None => {
                return Err(RowError::BadValue { column: 21, value: cols[21].clone() });
            },
        };
        let carries = match parse_i64(cols[22].as_str()) {
            Some(v) => v,
            None => {
                return Err(RowError::BadValue { column: 22, value: cols[22].clone() });
            },
        };
        let prgc = match parse_i64(cols[23].as_str()) {
            Some(v) => v,
            None => {
                return Err(RowError::BadValue { column: 23, value: cols[23].clone() });
            },
        };
        let succ = match parse_i64(cols[24].as_str()) {
            Some(v) => v,
            None => {
                return Err(RowError::BadValue { column: 24, value: cols[24].clone() });
            },
        };
        Ok(AttackRecord {
            player: cols[1].clone(),
            gls,
            ast,
            pk,
            pkatt,
            sh,
            sot,
            crdy,
            crdr,
            touches,
            tkl,
            int_,
            blocks,
            xg,
            npxg,
            xag,
            sca,
            gca,
            cmp,
            att,
            prgp,
            carries,
            prgc,
            succ,
        })
    }
}

/// Passing statistics of one player in one match.
#[derive(Debug)]
pub struct PassingRecord {
    pub player: String,
    pub cmp: i64,
    pub att: i64,
    pub totdist: i64,
    pub prgdist: i64,
}

impl StatRecord for PassingRecord {
    open spec fn field_bits(&self, key: Seq<char>) -> Option<u64> {
        if key == "cmp"@ {
            Some(double_of_i64(self.cmp))
        } else if key == "att"@ {
            Some(double_of_i64(self.att))
        } else if key == "totdist"@ {
            Some(double_of_i64(self.totdist))
        } else if key == "prgdist"@ {
            Some(double_of_i64(self.prgdist))
        } else {
            None
        }
    }

    open spec fn player_view(&self) -> Seq<char> {
        self.player@
    }

    open spec fn row_width() -> int {
        6
    }

    open spec fn col_fails(cols: Seq<Seq<char>>, c: int) -> bool {
        2 <= c < 6 && parse_i64_spec(cols[c]) is None
    }

    open spec fn matches_row(&self, cols: Seq<Seq<char>>) -> bool {
        &&& self.player@ == cols[1]
        &&& parse_i64_spec(cols[2]) == Some(self.cmp)
        &&& parse_i64_spec(cols[3]) == Some(self.att)
        &&& parse_i64_spec(cols[4]) == Some(self.totdist)
        &&& parse_i64_spec(cols[5]) == Some(self.prgdist)
    }

    open spec fn row_field_bits(cols: Seq<Seq<char>>, key: Seq<char>) -> Option<u64> {
        if key == "cmp"@ {
            Some(double_of_i64(parse_i64_spec(cols[2]).unwrap()))
        } else if key == "att"@ {
            Some(double_of_i64(parse_i64_spec(cols[3]).unwrap()))
        } else if key == "totdist"@ {
            Some(double_of_i64(parse_i64_spec(cols[4]).unwrap()))
        } else if key == "prgdist"@ {
            Some(double_of_i64(parse_i64_spec(cols[5]).unwrap()))
        } else {
            None
        }
    }

    proof fn lemma_fields_from_row(&self, cols: Seq<Seq<char>>) {
    }

    fn player(&self) -> (p: &String) {
        &self.player
    }

    fn lookup(&self, key: &str) -> (o: Option<u64>) {
        if str_eq(key, "cmp") {
            Some(score_of_i64(self.cmp))
        } else if str_eq(key, "att") {
            Some(score_of_i64(self.att))
        } else if str_eq(key, "totdist") {
            Some(score_of_i64(self.totdist))
        } else if str_eq(key, "prgdist") {
            Some(score_of_i64(self.prgdist))
        } else {
            None
        }
    }

    fn parse_row(cols: &Vec<String>) -> (r: Result<Self, RowError>) {
        if cols.len() < 6 {
            return Err(RowError::TooShort);
        }
        let cmp = match parse_i64(cols[2].as_str()) {
            Some(v) => v,
            None => {
                return Err(RowError::BadValue { column: 2, value: cols[2].clone() });
            },
        };
        let att = match parse_i64(cols[3].as_str()) {
            Some(v) => v,
            None => {
                return Err(RowError::BadValue { column: 3, value: cols[3].clone() });
            },
        };
        let totdist = match parse_i64(cols[4].as_str()) {
            Some(v) => v,
            None => {
                return Err(RowError::BadValue { column: 4, value: cols[4].clone() });
            },
        };
        let prgdist = match parse_i64(cols[5].as_str()) {
            Some(v) => v,
            None => {
                return Err(RowError::BadValue { column: 5, value: cols[5].clone() });
            },
        };
        Ok(PassingRecord { player: cols[1].clone(), cmp, att, totdist, prgdist })
    }
}

} // verus!
