//! Placeholder text for the `lorem` tag: the classic first paragraph, and
//! random sentences drawn from a fixed list of words.
use rand::Rng;
use vstd::prelude::*;
use vstd::string::StringExecFns;

verus! {

/// The number of words that random text is drawn from.
pub const WORD_COUNT: usize = 182;

/// The paragraph that common text starts with.
pub const COMMON_P: &'static str = "Lorem ipsum dolor sit amet, consectetur adipisicing elit, sed do eiusmod \
tempor incididunt ut labore et dolore magna aliqua. Ut enim ad minim veniam, quis nostrud \
exercitation ullamco laboris nisi ut aliquip ex ea commodo consequat. Duis aute irure dolor in \
reprehenderit in voluptate velit esse cillum dolore eu fugiat nulla pariatur. Excepteur sint \
occaecat cupidatat non proident, sunt in culpa qui officia deserunt mollit anim id est laborum.";

/// The `i`-th word of the list.
/// The `i`-th word of the list.
pub open spec fn word_of(i: usize) -> &'static str {
    match i {
        0 => "exercitationem",
        1 => "perferendis",
        2 => "perspiciatis",
        3 => "laborum",
        4 => "eveniet",
        5 => "sunt",
        6 => "iure",
        7 => "name",
        8 => "nobis",
        9 => "eum",
        10 => "cum",
        11 => "officiis",
        12 => "excepturi",
        13 => "odio",
        14 => "consectetur",
        15 => "quasi",
        16 => "aut",
        17 => "quisquam",
        18 => "vel",
        19 => "eligendi",
        20 => "itaque",
        21 => "non",
        22 => "odit",
        23 => "tempore",
        24 => "quaerat",
        25 => "dignissimos",
        26 => "facilis",
        27 => "neque",
        28 => "nihil",
        29 => "expedita",
        30 => "vitae",
        31 => "vero",
        32 => "ipsum",
        33 => "nisi",
        34 => "animi",
        35 => "cumque",
        36 => "pariatur",
        37 => "velit",
        38 => "modi",
        39 => "natus",
        40 => "iusto",
        41 => "eaque",
        42 => "sequi",
        43 => "illo",
        44 => "sed",
        45 => "ex",
        46 => "et",
        47 => "voluptatibus",
        48 => "tempora",
        49 => "veritatis",
        50 => "ratione",
        51 => "assumenda",
        52 => "incidunt",
        53 => "nostrum",
        54 => "placeat",
        55 => "aliquid",
        56 => "fuga",
        57 => "provident",
        58 => "praesentium",
        59 => "rem",
        60 => "necessitatibus",
        61 => "suscipit",
        62 => "adipisci",
        63 => "quidem",
        64 => "possimus",
        65 => "voluptas",
        66 => "debitis",
        67 => "sint",
        68 => "accusantium",
        69 => "unde",
        70 => "sapiente",
        71 => "voluptate",
        72 => "qui",
        73 => "aspernatur",
        74 => "laudantium",
        75 => "soluta",
        76 => "amet",
        77 => "quo",
        78 => "aliquam",
        79 => "saepe",
        80 => "culpa",
        81 => "libero",
        82 => "ipsa",
        83 => "dicta",
        84 => "reiciendis",
        85 => "nesciunt",
        86 => "doloribus",
        87 => "autem",
        88 => "impedit",
        89 => "minima",
        90 => "maiores",
        91 => "repudiandae",
        92 => "ipsam",
        93 => "obcaecati",
        94 => "ullam",
        95 => "enim",
        96 => "totam",
        97 => "delectus",
        98 => "ducimus",
        99 => "quis",
        100 => "voluptates",
        101 => "dolores",
        102 => "molestiae",
        103 => "harum",
        104 => "dolorem",
        105 => "quia",
        106 => "voluptatem",
        107 => "molestias",
        108 => "magni",
        109 => "distinctio",
        110 => "omnis",
        111 => "illum",
        112 => "dolorum",
        113 => "voluptatum",
        114 => "ea",
        115 => "quas",
        116 => "quam",
        117 => "corporis",
        118 => "quae",
        119 => "blanditiis",
        120 => "atque",
        121 => "deserunt",
        122 => "laboriosam",
        123 => "earum",
        124 => "consequuntur",
        125 => "hic",
        126 => "cupiditate",
        127 => "quibusdam",
        128 => "accusamus",
        129 => "ut",
        130 => "rerum",
        131 => "error",
        132 => "minus",
        133 => "eius",
        134 => "ab",
        135 => "ad",
        136 => "nemo",
        137 => "fugit",
        138 => "officia",
        139 => "at",
        140 => "in",
        141 => "id",
        142 => "quos",
        143 => "reprehenderit",
        144 => "numquam",
        145 => "iste",
        146 => "fugiat",
        147 => "sit",
        148 => "inventore",
        149 => "beatae",
        150 => "repellendus",
        151 => "magnam",
        152 => "recusandae",
        153 => "quod",
        154 => "explicabo",
        155 => "doloremque",
        156 => "aperiam",
        157 => "consequatur",
        158 => "asperiores",
        159 => "commodi",
        160 => "option",
        161 => "dolor",
        162 => "labore",
        163 => "temporibus",
        164 => "repellat",
        165 => "veniam",
        166 => "architecto",
        167 => "est",
        168 => "esse",
        169 => "mollitia",
        170 => "nulla",
        171 => "a",
        172 => "similique",
        173 => "eos",
        174 => "alias",
        175 => "dolore",
        176 => "tenetur",
        177 => "deleniti",
        178 => "porro",
        179 => "facere",
        180 => "maxime",
        _ => "corrupti",
    }
}

/// The `i`-th word of the list.
fn word(i: usize) -> (r: &'static str)
    requires
        i < WORD_COUNT,
    ensures
        r == word_of(i),
{
    match i {
        0 => "exercitationem",
        1 => "perferendis",
        2 => "perspiciatis",
        3 => "laborum",
        4 => "eveniet",
        5 => "sunt",
        6 => "iure",
        7 => "name",
        8 => "nobis",
        9 => "eum",
        10 => "cum",
        11 => "officiis",
        12 => "excepturi",
        13 => "odio",
        14 => "consectetur",
        15 => "quasi",
        16 => "aut",
        17 => "quisquam",
        18 => "vel",
        19 => "eligendi",
        20 => "itaque",
        21 => "non",
        22 => "odit",
        23 => "tempore",
        24 => "quaerat",
        25 => "dignissimos",
        26 => "facilis",
        27 => "neque",
        28 => "nihil",
        29 => "expedita",
        30 => "vitae",
        31 => "vero",
        32 => "ipsum",
        33 => "nisi",
        34 => "animi",
        35 => "cumque",
        36 => "pariatur",
        37 => "velit",
        38 => "modi",
        39 => "natus",
        40 => "iusto",
        41 => "eaque",
        42 => "sequi",
        43 => "illo",
        44 => "sed",
        45 => "ex",
        46 => "et",
        47 => "voluptatibus",
        48 => "tempora",
        49 => "veritatis",
        50 => "ratione",
        51 => "assumenda",
        52 => "incidunt",
        53 => "nostrum",
        54 => "placeat",
        55 => "aliquid",
        56 => "fuga",
        57 => "provident",
        58 => "praesentium",
        59 => "rem",
        60 => "necessitatibus",
        61 => "suscipit",
        62 => "adipisci",
        63 => "quidem",
        64 => "possimus",
        65 => "voluptas",
        66 => "debitis",
        67 => "sint",
        68 => "accusantium",
        69 => "unde",
        70 => "sapiente",
        71 => "voluptate",
        72 => "qui",
        73 => "aspernatur",
        74 => "laudantium",
        75 => "soluta",
        76 => "amet",
        77 => "quo",
        78 => "aliquam",
        79 => "saepe",
        80 => "culpa",
        81 => "libero",
        82 => "ipsa",
        83 => "dicta",
        84 => "reiciendis",
        85 => "nesciunt",
        86 => "doloribus",
        87 => "autem",
        88 => "impedit",
        89 => "minima",
        90 => "maiores",
        91 => "repudiandae",
        92 => "ipsam",
        93 => "obcaecati",
        94 => "ullam",
        95 => "enim",
        96 => "totam",
        97 => "delectus",
        98 => "ducimus",
        99 => "quis",
        100 => "voluptates",
        101 => "dolores",
        102 => "molestiae",
        103 => "harum",
        104 => "dolorem",
        105 => "quia",
        106 => "voluptatem",
        107 => "molestias",
        108 => "magni",
        109 => "distinctio",
        110 => "omnis",
        111 => "illum",
        112 => "dolorum",
        113 => "voluptatum",
        114 => "ea",
        115 => "quas",
        116 => "quam",
        117 => "corporis",
        118 => "quae",
        119 => "blanditiis",
        120 => "atque",
        121 => "deserunt",
        122 => "laboriosam",
        123 => "earum",
        124 => "consequuntur",
        125 => "hic",
        126 => "cupiditate",
        127 => "quibusdam",
        128 => "accusamus",
        129 => "ut",
        130 => "rerum",
        131 => "error",
        132 => "minus",
        133 => "eius",
        134 => "ab",
        135 => "ad",
        136 => "nemo",
        137 => "fugit",
        138 => "officia",
        139 => "at",
        140 => "in",
        141 => "id",
        142 => "quos",
        143 => "reprehenderit",
        144 => "numquam",
        145 => "iste",
        146 => "fugiat",
        147 => "sit",
        148 => "inventore",
        149 => "beatae",
        150 => "repellendus",
        151 => "magnam",
        152 => "recusandae",
        153 => "quod",
        154 => "explicabo",
        155 => "doloremque",
        156 => "aperiam",
        157 => "consequatur",
        158 => "asperiores",
        159 => "commodi",
        160 => "option",
        161 => "dolor",
        162 => "labore",
        163 => "temporibus",
        164 => "repellat",
        165 => "veniam",
        166 => "architecto",
        167 => "est",
        168 => "esse",
        169 => "mollitia",
        170 => "nulla",
        171 => "a",
        172 => "similique",
        173 => "eos",
        174 => "alias",
        175 => "dolore",
        176 => "tenetur",
        177 => "deleniti",
        178 => "porro",
        179 => "facere",
        180 => "maxime",
        _ => "corrupti",
    }
}

/// The `i`-th word of the list, with a capital first letter.
pub open spec fn capitalized_of(i: usize) -> &'static str {
    match i {
        0 => "Exercitationem",
        1 => "Perferendis",
        2 => "Perspiciatis",
        3 => "Laborum",
        4 => "Eveniet",
        5 => "Sunt",
        6 => "Iure",
        7 => "Name",
        8 => "Nobis",
        9 => "Eum",
        10 => "Cum",
        11 => "Officiis",
        12 => "Excepturi",
        13 => "Odio",
        14 => "Consectetur",
        15 => "Quasi",
        16 => "Aut",
        17 => "Quisquam",
        18 => "Vel",
        19 => "Eligendi",
        20 => "Itaque",
        21 => "Non",
        22 => "Odit",
        23 => "Tempore",
        24 => "Quaerat",
        25 => "Dignissimos",
        26 => "Facilis",
        27 => "Neque",
        28 => "Nihil",
        29 => "Expedita",
        30 => "Vitae",
        31 => "Vero",
        32 => "Ipsum",
        33 => "Nisi",
        34 => "Animi",
        35 => "Cumque",
        36 => "Pariatur",
        37 => "Velit",
        38 => "Modi",
        39 => "Natus",
        40 => "Iusto",
        41 => "Eaque",
        42 => "Sequi",
        43 => "Illo",
        44 => "Sed",
        45 => "Ex",
        46 => "Et",
        47 => "Voluptatibus",
        48 => "Tempora",
        49 => "Veritatis",
        50 => "Ratione",
        51 => "Assumenda",
        52 => "Incidunt",
        53 => "Nostrum",
        54 => "Placeat",
        55 => "Aliquid",
        56 => "Fuga",
        57 => "Provident",
        58 => "Praesentium",
        59 => "Rem",
        60 => "Necessitatibus",
        61 => "Suscipit",
        62 => "Adipisci",
        63 => "Quidem",
        64 => "Possimus",
        65 => "Voluptas",
        66 => "Debitis",
        67 => "Sint",
        68 => "Accusantium",
        69 => "Unde",
        70 => "Sapiente",
        71 => "Voluptate",
        72 => "Qui",
        73 => "Aspernatur",
        74 => "Laudantium",
        75 => "Soluta",
        76 => "Amet",
        77 => "Quo",
        78 => "Aliquam",
        79 => "Saepe",
        80 => "Culpa",
        81 => "Libero",
        82 => "Ipsa",
        83 => "Dicta",
        84 => "Reiciendis",
        85 => "Nesciunt",
        86 => "Doloribus",
        87 => "Autem",
        88 => "Impedit",
        89 => "Minima",
        90 => "Maiores",
        91 => "Repudiandae",
        92 => "Ipsam",
        93 => "Obcaecati",
        94 => "Ullam",
        95 => "Enim",
        96 => "Totam",
        97 => "Delectus",
        98 => "Ducimus",
        99 => "Quis",
        100 => "Voluptates",
        101 => "Dolores",
        102 => "Molestiae",
        103 => "Harum",
        104 => "Dolorem",
        105 => "Quia",
        106 => "Voluptatem",
        107 => "Molestias",
        108 => "Magni",
        109 => "Distinctio",
        110 => "Omnis",
        111 => "Illum",
        112 => "Dolorum",
        113 => "Voluptatum",
        114 => "Ea",
        115 => "Quas",
        116 => "Quam",
        117 => "Corporis",
        118 => "Quae",
        119 => "Blanditiis",
        120 => "Atque",
        121 => "Deserunt",
        122 => "Laboriosam",
        123 => "Earum",
        124 => "Consequuntur",
        125 => "Hic",
        126 => "Cupiditate",
        127 => "Quibusdam",
        128 => "Accusamus",
        129 => "Ut",
        130 => "Rerum",
        131 => "Error",
        132 => "Minus",
        133 => "Eius",
        134 => "Ab",
        135 => "Ad",
        136 => "Nemo",
        137 => "Fugit",
        138 => "Officia",
        139 => "At",
        140 => "In",
        141 => "Id",
        142 => "Quos",
        143 => "Reprehenderit",
        144 => "Numquam",
        145 => "Iste",
        146 => "Fugiat",
        147 => "Sit",
        148 => "Inventore",
        149 => "Beatae",
        150 => "Repellendus",
        151 => "Magnam",
        152 => "Recusandae",
        153 => "Quod",
        154 => "Explicabo",
        155 => "Doloremque",
        156 => "Aperiam",
        157 => "Consequatur",
        158 => "Asperiores",
        159 => "Commodi",
        160 => "Option",
        161 => "Dolor",
        162 => "Labore",
        163 => "Temporibus",
        164 => "Repellat",
        165 => "Veniam",
        166 => "Architecto",
        167 => "Est",
        168 => "Esse",
        169 => "Mollitia",
        170 => "Nulla",
        171 => "A",
        172 => "Similique",
        173 => "Eos",
        174 => "Alias",
        175 => "Dolore",
        176 => "Tenetur",
        177 => "Deleniti",
        178 => "Porro",
        179 => "Facere",
        180 => "Maxime",
        _ => "Corrupti",
    }
}

/// The `i`-th word of the list, with a capital first letter.
fn capitalized(i: usize) -> (r: &'static str)
    requires
        i < WORD_COUNT,
    ensures
        r == capitalized_of(i),
{
    match i {
        0 => "Exercitationem",
        1 => "Perferendis",
        2 => "Perspiciatis",
        3 => "Laborum",
        4 => "Eveniet",
        5 => "Sunt",
        6 => "Iure",
        7 => "Name",
        8 => "Nobis",
        9 => "Eum",
        10 => "Cum",
        11 => "Officiis",
        12 => "Excepturi",
        13 => "Odio",
        14 => "Consectetur",
        15 => "Quasi",
        16 => "Aut",
        17 => "Quisquam",
        18 => "Vel",
        19 => "Eligendi",
        20 => "Itaque",
        21 => "Non",
        22 => "Odit",
        23 => "Tempore",
        24 => "Quaerat",
        25 => "Dignissimos",
        26 => "Facilis",
        27 => "Neque",
        28 => "Nihil",
        29 => "Expedita",
        30 => "Vitae",
        31 => "Vero",
        32 => "Ipsum",
        33 => "Nisi",
        34 => "Animi",
        35 => "Cumque",
        36 => "Pariatur",
        37 => "Velit",
        38 => "Modi",
        39 => "Natus",
        40 => "Iusto",
        41 => "Eaque",
        42 => "Sequi",
        43 => "Illo",
        44 => "Sed",
        45 => "Ex",
        46 => "Et",
        47 => "Voluptatibus",
        48 => "Tempora",
        49 => "Veritatis",
        50 => "Ratione",
        51 => "Assumenda",
        52 => "Incidunt",
        53 => "Nostrum",
        54 => "Placeat",
        55 => "Aliquid",
        56 => "Fuga",
        57 => "Provident",
        58 => "Praesentium",
        59 => "Rem",
        60 => "Necessitatibus",
        61 => "Suscipit",
        62 => "Adipisci",
        63 => "Quidem",
        64 => "Possimus",
        65 => "Voluptas",
        66 => "Debitis",
        67 => "Sint",
        68 => "Accusantium",
        69 => "Unde",
        70 => "Sapiente",
        71 => "Voluptate",
        72 => "Qui",
        73 => "Aspernatur",
        74 => "Laudantium",
        75 => "Soluta",
        76 => "Amet",
        77 => "Quo",
        78 => "Aliquam",
        79 => "Saepe",
        80 => "Culpa",
        81 => "Libero",
        82 => "Ipsa",
        83 => "Dicta",
        84 => "Reiciendis",
        85 => "Nesciunt",
        86 => "Doloribus",
        87 => "Autem",
        88 => "Impedit",
        89 => "Minima",
        90 => "Maiores",
        91 => "Repudiandae",
        92 => "Ipsam",
        93 => "Obcaecati",
        94 => "Ullam",
        95 => "Enim",
        96 => "Totam",
        97 => "Delectus",
        98 => "Ducimus",
        99 => "Quis",
        100 => "Voluptates",
        101 => "Dolores",
        102 => "Molestiae",
        103 => "Harum",
        104 => "Dolorem",
        105 => "Quia",
        106 => "Voluptatem",
        107 => "Molestias",
        108 => "Magni",
        109 => "Distinctio",
        110 => "Omnis",
        111 => "Illum",
        112 => "Dolorum",
        113 => "Voluptatum",
        114 => "Ea",
        115 => "Quas",
        116 => "Quam",
        117 => "Corporis",
        118 => "Quae",
        119 => "Blanditiis",
        120 => "Atque",
        121 => "Deserunt",
        122 => "Laboriosam",
        123 => "Earum",
        124 => "Consequuntur",
        125 => "Hic",
        126 => "Cupiditate",
        127 => "Quibusdam",
        128 => "Accusamus",
        129 => "Ut",
        130 => "Rerum",
        131 => "Error",
        132 => "Minus",
        133 => "Eius",
        134 => "Ab",
        135 => "Ad",
        136 => "Nemo",
        137 => "Fugit",
        138 => "Officia",
        139 => "At",
        140 => "In",
        141 => "Id",
        142 => "Quos",
        143 => "Reprehenderit",
        144 => "Numquam",
        145 => "Iste",
        146 => "Fugiat",
        147 => "Sit",
        148 => "Inventore",
        149 => "Beatae",
        150 => "Repellendus",
        151 => "Magnam",
        152 => "Recusandae",
        153 => "Quod",
        154 => "Explicabo",
        155 => "Doloremque",
        156 => "Aperiam",
        157 => "Consequatur",
        158 => "Asperiores",
        159 => "Commodi",
        160 => "Option",
        161 => "Dolor",
        162 => "Labore",
        163 => "Temporibus",
        164 => "Repellat",
        165 => "Veniam",
        166 => "Architecto",
        167 => "Est",
        168 => "Esse",
        169 => "Mollitia",
        170 => "Nulla",
        171 => "A",
        172 => "Similique",
        173 => "Eos",
        174 => "Alias",
        175 => "Dolore",
        176 => "Tenetur",
        177 => "Deleniti",
        178 => "Porro",
        179 => "Facere",
        180 => "Maxime",
        _ => "Corrupti",
    }
}

/// Relies on `rand::Rng::gen_range` on `thread_rng`: a number in `lo..=hi`,
/// which must not be empty.
#[verifier::external_body]
fn random_between(lo: usize, hi: usize) -> (r: usize)
    requires
        lo <= hi,
    ensures
        lo <= r <= hi,
{
    rand::thread_rng().gen_range(lo..=hi)
}

/// Relies on `rand::seq::index::sample` on `thread_rng`: `amount` distinct
/// indices below `length`, in random order.
#[verifier::external_body]
fn random_indices(length: usize, amount: usize) -> (r: Vec<usize>)
    requires
        amount <= length,
    ensures
        r@.len() == amount,
        forall|k: int| 0 <= k < r@.len() ==> #[trigger] r@[k] < length,
        forall|j: int, k: int| 0 <= j < k < r@.len() ==> r@[j] != r@[k],
{
    rand::seq::index::sample(&mut rand::thread_rng(), length, amount).into_vec()
}

/// Relies on `rand::random` for a `bool`: a fair coin.
#[verifier::external_body]
fn coin_flip() -> (r: bool) {
    rand::random::<bool>()
}

/// Texts separated by `sep`.
pub open spec fn join_with(ws: Seq<Seq<char>>, sep: Seq<char>) -> Seq<char>
    decreases ws.len(),
{
    if ws.len() == 0 {
        Seq::empty()
    } else if ws.len() == 1 {
        ws[0]
    } else {
        join_with(ws.drop_last(), sep) + sep + ws.last()
    }
}

proof fn lemma_join_push(ws: Seq<Seq<char>>, w: Seq<char>, sep: Seq<char>)
    ensures
        join_with(ws.push(w), sep) == if ws.len() == 0 { w } else { join_with(ws, sep) + sep + w },
{
    assert(ws.push(w).drop_last() =~= ws);
    if ws.len() == 0 {
        assert(ws.push(w).len() == 1);
    }
}

/// The words of a section; the first word of the sentence is capitalized.
pub open spec fn section_words(sec: Seq<usize>, first: bool) -> Seq<Seq<char>> {
    Seq::new(sec.len(), |j: int| if first && j == 0 { capitalized_of(sec[j])@ } else { word_of(sec[j])@ })
}

/// The text of each section: its words separated by spaces.
pub open spec fn section_texts(secs: Seq<Seq<usize>>) -> Seq<Seq<char>> {
    Seq::new(secs.len(), |k: int| join_with(section_words(secs[k], k == 0), " "@))
}

/// The sentence made of the words at `secs`, section by section: sections
/// separated by `, `, the first word capitalized, ending in `?` or `.`.
pub open spec fn sentence_text(secs: Seq<Seq<usize>>, question: bool) -> Seq<char> {
    join_with(section_texts(secs), ", "@) + if question { "?"@ } else { "."@ }
}

/// One to five sections of three to twelve words of the list each.
pub open spec fn valid_sections(secs: Seq<Seq<usize>>) -> bool {
    &&& 1 <= secs.len() <= 5
    &&& forall|k: int| 0 <= k < secs.len() ==> 3 <= (#[trigger] secs[k]).len() <= 12 && forall|j: int| 0 <= j < secs[k].len() ==> #[trigger] secs[k][j] < WORD_COUNT
}

/// `t` is a sentence of the shape that `sentence` draws.
pub open spec fn is_sentence(t: Seq<char>) -> bool {
    exists|secs: Seq<Seq<usize>>, question: bool| valid_sections(secs) && t == sentence_text(secs, question)
}

/// `t` is one to four sentences separated by spaces.
pub open spec fn is_paragraph(t: Seq<char>) -> bool {
    exists|ss: Seq<Seq<char>>| 1 <= ss.len() <= 4 && (forall|i: int| 0 <= i < ss.len() ==> is_sentence(#[trigger] ss[i])) && t == join_with(ss, " "@)
}

/// The sentence made of the words at `secs`, ending in `?` when `question`.
pub fn sentence_from(secs: &Vec<Vec<usize>>, question: bool) -> (r: String)
    requires
        forall|k: int, j: int| 0 <= k < secs@.len() && 0 <= j < secs@[k]@.len() ==> #[trigger] secs@[k]@[j] < WORD_COUNT,
    ensures
        r@ == sentence_text(Seq::new(secs@.len(), |k: int| secs@[k]@), question),
{
    let ghost ss = Seq::new(secs@.len(), |k: int| secs@[k]@);
    let ghost texts = section_texts(ss);
    let mut text = String::new();
    let mut k: usize = 0;
    while k < secs.len()
        invariant
            k <= secs@.len(),
            ss == Seq::new(secs@.len(), |k: int| secs@[k]@),
            texts == section_texts(ss),
            forall|k: int, j: int| 0 <= k < secs@.len() && 0 <= j < secs@[k]@.len() ==> #[trigger] secs@[k]@[j] < WORD_COUNT,
            text@ == join_with(texts.take(k as int), ", "@),
        decreases secs.len() - k,
    {
        let ghost prefix = if k > 0 { join_with(texts.take(k as int), ", "@) + ", "@ } else { join_with(texts.take(k as int), ", "@) };
        if k > 0 {
            text.append(", ");
        }
        let sec = &secs[k];
        let ghost sw = section_words(ss[k as int], k == 0);
        let mut j: usize = 0;
        while j < sec.len()
            invariant
                j <= sec@.len(),
                k < secs@.len(),
                sec@ == ss[k as int],
                sw == section_words(ss[k as int], k == 0),
                forall|m: int| 0 <= m < sec@.len() ==> #[trigger] sec@[m] < WORD_COUNT,
                text@ == prefix + join_with(sw.take(j as int), " "@),
            decreases sec.len() - j,
        {
            let i = sec[j];
            let w = if k == 0 && j == 0 { capitalized(i) } else { word(i) };
            proof {
                assert(sw[j as int] == w@);
                assert(sw.take(j + 1) =~= sw.take(j as int).push(w@));
                lemma_join_push(sw.take(j as int), w@, " "@);
            }
            if j > 0 {
                text.append(" ");
            }
            text.append(w);
            proof {
                if j > 0 {
                    assert(prefix + join_with(sw.take(j as int), " "@) + " "@ + w@ =~= prefix + (join_with(sw.take(j as int), " "@) + " "@ + w@));
                } else {
                    assert(join_with(sw.take(0), " "@) =~= Seq::<char>::empty());
                    assert(prefix + Seq::<char>::empty() + w@ =~= prefix + w@);
                }
            }
            j = j + 1;
        }
        proof {
            assert(sw.take(j as int) =~= sw);
            assert(texts[k as int] == join_with(sw, " "@));
            assert(texts.take(k + 1) =~= texts.take(k as int).push(texts[k as int]));
            lemma_join_push(texts.take(k as int), texts[k as int], ", "@);
            if k == 0 {
                assert(join_with(texts.take(0), ", "@) =~= Seq::<char>::empty());
                assert(Seq::<char>::empty() + texts[0] =~= texts[0]);
            } else {
                assert(join_with(texts.take(k as int), ", "@) + ", "@ + texts[k as int] =~= prefix + texts[k as int]);
            }
        }
        k = k + 1;
    }
    proof {
        assert(texts.take(k as int) =~= texts);
    }
    text.append(if question { "?" } else { "." });
    text
}

/// A random sentence: one to five comma-separated sections of three to
/// twelve distinct words each, capitalized, ending in `.` or `?`.
pub fn sentence() -> (r: String)
    ensures
        is_sentence(r@),
{
    let mut secs: Vec<Vec<usize>> = Vec::new();
    let sections = random_between(1, 5);
    let mut k: usize = 0;
    while k < sections
        invariant
            k <= sections <= 5,
            secs@.len() == k,
            forall|m: int| 0 <= m < secs@.len() ==> 3 <= (#[trigger] secs@[m])@.len() <= 12,
            forall|m: int, j: int| 0 <= m < secs@.len() && 0 <= j < secs@[m]@.len() ==> #[trigger] secs@[m]@[j] < WORD_COUNT,
        decreases sections - k,
    {
        let count = random_between(3, 12);
        let picked = random_indices(WORD_COUNT, count);
        secs.push(picked);
        k = k + 1;
    }
    let question = coin_flip();
    let r = sentence_from(&secs, question);
    proof {
        let ss = Seq::new(secs@.len(), |k: int| secs@[k]@);
        assert(valid_sections(ss));
        assert(r@ == sentence_text(ss, question));
    }
    r
}

/// A random paragraph: one to four sentences separated by spaces.
pub fn paragraph() -> (r: String)
    ensures
        is_paragraph(r@),
{
    let mut p = String::new();
    let count = random_between(1, 4);
    let ghost mut ss: Seq<Seq<char>> = Seq::empty();
    let mut k: usize = 0;
    while k < count
        invariant
            k <= count <= 4,
            1 <= count,
            ss.len() == k,
            forall|i: int| 0 <= i < ss.len() ==> is_sentence(#[trigger] ss[i]),
            p@ == join_with(ss, " "@),
        decreases count - k,
    {
        let s = sentence();
        proof {
            lemma_join_push(ss, s@, " "@);
            if k == 0 {
                assert(join_with(ss, " "@) =~= Seq::<char>::empty());
                assert(Seq::<char>::empty() + s@ =~= s@);
            }
        }
        if k > 0 {
            p.append(" ");
        }
        p.append(s.as_str());
        proof {
            assert forall|i: int| 0 <= i < ss.push(s@).len() implies is_sentence(#[trigger] ss.push(s@)[i]) by {
                if i < ss.len() {
                    assert(ss.push(s@)[i] == ss[i]);
                }
            }
            ss = ss.push(s@);
        }
        k = k + 1;
    }
    p
}

/// `count` paragraphs; with `common`, the first is the classic one, and
/// every other is a random one.
pub fn paragraphs(count: usize, common: bool) -> (r: Vec<String>)
    ensures
        r@.len() == count,
        common && count > 0 ==> r@[0]@ == COMMON_P@,
        forall|k: int| 0 <= k < r@.len() && !(common && k == 0) ==> is_paragraph((#[trigger] r@[k])@),
{
    let mut paras: Vec<String> = Vec::new();
    let mut i: usize = 0;
    while i < count
        invariant
            i <= count,
            paras@.len() == i,
            common && i > 0 ==> paras@[0]@ == COMMON_P@,
            forall|k: int| 0 <= k < paras@.len() && !(common && k == 0) ==> is_paragraph((#[trigger] paras@[k])@),
        decreases count - i,
    {
        if common && i == 0 {
            paras.push(String::from_str(COMMON_P));
        } else {
            paras.push(paragraph());
        }
        i = i + 1;
    }
    paras
}

/// The number of words that common text starts with.
pub const COMMON_WORD_COUNT: usize = 19;

/// The `i`-th word of the common text.
pub open spec fn common_word_of(i: usize) -> &'static str {
    match i {
        0 => "lorem",
        1 => "ipsum",
        2 => "dolor",
        3 => "sit",
        4 => "amet",
        5 => "consectetur",
        6 => "adipisicing",
        7 => "elit",
        8 => "sed",
        9 => "do",
        10 => "eiusmod",
        11 => "tempor",
        12 => "incididunt",
        13 => "ut",
        14 => "labore",
        15 => "et",
        16 => "dolore",
        17 => "magna",
        _ => "aliqua",
    }
}

fn common_word(i: usize) -> (r: &'static str)
    ensures
        r == common_word_of(i),
{
    match i {
        0 => "lorem",
        1 => "ipsum",
        2 => "dolor",
        3 => "sit",
        4 => "amet",
        5 => "consectetur",
        6 => "adipisicing",
        7 => "elit",
        8 => "sed",
        9 => "do",
        10 => "eiusmod",
        11 => "tempor",
        12 => "incididunt",
        13 => "ut",
        14 => "labore",
        15 => "et",
        16 => "dolore",
        17 => "magna",
        _ => "aliqua",
    }
}

/// Words separated by single spaces.
pub open spec fn joined(ws: Seq<Seq<char>>) -> Seq<char>
    decreases ws.len(),
{
    if ws.len() == 0 {
        Seq::empty()
    } else if ws.len() == 1 {
        ws[0]
    } else {
        joined(ws.drop_last()) + " "@ + ws.last()
    }
}

/// The first `c` common words, then the words of the list at `picks`.
pub open spec fn word_list(c: nat, picks: Seq<usize>) -> Seq<Seq<char>> {
    Seq::new(c, |i: int| common_word_of(i as usize)@) + picks.map_values(|p: usize| word_of(p)@)
}

/// How many common words `count` words with `common` start with.
pub open spec fn common_part(count: nat, common: bool) -> nat {
    if !common {
        0
    } else if count <= COMMON_WORD_COUNT {
        count
    } else {
        COMMON_WORD_COUNT as nat
    }
}

proof fn lemma_joined_push(ws: Seq<Seq<char>>, w: Seq<char>)
    ensures
        joined(ws.push(w)) == if ws.len() == 0 { w } else { joined(ws) + " "@ + w },
{
    assert(ws.push(w).drop_last() =~= ws);
    if ws.len() == 0 {
        assert(ws.push(w).len() == 1);
    }
}

/// The first `c` common words, then the words at `picks`, separated by
/// single spaces.
pub fn words_from(c: usize, picks: &Vec<usize>) -> (r: String)
    requires
        c <= COMMON_WORD_COUNT,
        forall|k: int| 0 <= k < picks@.len() ==> #[trigger] picks@[k] < WORD_COUNT,
    ensures
        r@ == joined(word_list(c as nat, picks@)),
{
    let ghost list = word_list(c as nat, picks@);
    let mut text = String::new();
    let mut i: usize = 0;
    while i < c
        invariant
            i <= c <= COMMON_WORD_COUNT,
            list == word_list(c as nat, picks@),
            text@ == joined(list.take(i as int)),
        decreases c - i,
    {
        proof {
            assert(list.take(i + 1) =~= list.take(i as int).push(common_word_of(i)@));
            lemma_joined_push(list.take(i as int), common_word_of(i)@);
        }
        if i > 0 {
            text.append(" ");
        }
        text.append(common_word(i));
        i = i + 1;
    }
    let mut j: usize = 0;
    while j < picks.len()
        invariant
            j <= picks@.len(),
            c <= COMMON_WORD_COUNT,
            forall|k: int| 0 <= k < picks@.len() ==> #[trigger] picks@[k] < WORD_COUNT,
            list == word_list(c as nat, picks@),
            text@ == joined(list.take(c + j)),
        decreases picks.len() - j,
    {
        let p = picks[j];
        proof {
            assert(list[c + j] == word_of(p)@);
            assert(list.take(c + j + 1) =~= list.take(c + j).push(word_of(p)@));
            lemma_joined_push(list.take(c + j), word_of(p)@);
        }
        if c > 0 || j > 0 {
            text.append(" ");
        }
        text.append(word(p));
        proof {
            assert(c + (j + 1) == (c + j) + 1);
        }
        j = j + 1;
    }
    proof {
        assert(list.take(c + j) =~= list);
    }
    text
}

/// `count` words separated by spaces. With `common`, they start with the
/// common words, which are all of it when `count` is at most their number;
/// the rest are drawn at random from the list, each batch without repeats.
pub fn words(count: usize, common: bool) -> (r: String)
    ensures
        exists|picks: Seq<usize>| #![trigger word_list(common_part(count as nat, common), picks)]
            picks.len() + common_part(count as nat, common) == count
            && (forall|k: int| 0 <= k < picks.len() ==> #[trigger] picks[k] < WORD_COUNT)
            && r@ == joined(word_list(common_part(count as nat, common), picks)),
{
    let c = if !common {
        0
    } else if count <= COMMON_WORD_COUNT {
        count
    } else {
        COMMON_WORD_COUNT
    };
    let mut picks: Vec<usize> = Vec::new();
    let mut remaining = count - c;
    while remaining > 0
        invariant
            picks@.len() + remaining == count - c,
            forall|k: int| 0 <= k < picks@.len() ==> #[trigger] picks@[k] < WORD_COUNT,
        decreases remaining,
    {
        let take = if remaining < WORD_COUNT { remaining } else { WORD_COUNT };
        let drawn = random_indices(WORD_COUNT, take);
        let mut j: usize = 0;
        while j < take
            invariant
                j <= take <= remaining,
                drawn@.len() == take,
                forall|m: int| 0 <= m < drawn@.len() ==> #[trigger] drawn@[m] < WORD_COUNT,
                picks@.len() + remaining - j == count - c,
                forall|k: int| 0 <= k < picks@.len() ==> #[trigger] picks@[k] < WORD_COUNT,
            decreases take - j,
        {
            picks.push(drawn[j]);
            j = j + 1;
        }
        remaining = remaining - take;
    }
    let text = words_from(c, &picks);
    assert(picks@.len() + common_part(count as nat, common) == count);
    text
}

} // verus!
