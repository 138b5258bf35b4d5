//! The shipped world of Woodspring: its locations, items, inhabitants,
//! passages and encounter table, loaded once at startup.
use vstd::prelude::*;
use crate::character::{ArmorType, EquipmentType, WeaponType};
use crate::enemy::Enemy;
use crate::object::{Attitude, Item, Location, NPC, NPCTag, Passage, World};

verus! {

broadcast use vstd::string::group_string_axioms;

/// The twelve shipped locations, registered in order with their room
/// content; no edges yet, so the graph stays trivially closed.
#[verifier::rlimit(100)]
fn add_shipped_locations(world: &mut World)
    requires
        old(world).locations@.len() == 0,
        old(world).wf(),
        old(world).closed_graph(),
    ensures
        *final(world) == (World { locations: final(world).locations, ..*old(world) }),
        final(world).wf(),
        final(world).closed_graph(),
        final(world).locations@.len() == 12,
        final(world).locations@[0].base.tag@ == "cueva"@,
        final(world).locations@[1].base.tag@ == "campo"@,
        final(world).locations@[2].base.tag@ == "pueblo"@,
        final(world).locations@[3].base.tag@ == "bosque"@,
        final(world).locations@[4].base.tag@ == "ruinas"@,
        final(world).locations@[5].base.tag@ == "grieta"@,
        final(world).locations@[6].base.tag@ == "corredor"@,
        final(world).locations@[7].base.tag@ == "puerta"@,
        final(world).locations@[8].base.tag@ == "camara"@,
        final(world).locations@[9].base.tag@ == "laboratorio"@,
        final(world).locations@[10].base.tag@ == "biblioteca"@,
        final(world).locations@[11].base.tag@ == "tesoro"@,
        forall|k: int|
            0 <= k < 12 ==> (#[trigger] final(world).locations@[k]).connections@.len() == 0,
        final(world).locations@[0].content.items@.len() == 1,
        final(world).locations@[0].content.items@[0].base.tag@ == "antorcha"@,
        final(world).locations@[1].content.items@.len() == 2,
        final(world).locations@[1].content.items@[0].base.tag@ == "cuerda"@,
        final(world).locations@[1].content.items@[1].base.tag@ == "moneda"@,
        final(world).locations@[10].content.items@.len() == 1,
        final(world).locations@[10].content.items@[0].base.tag@ == "libro"@,
        final(world).locations@[2].content.npcs@.len() == 1,
        final(world).locations@[2].content.npcs@[0]@ == "guardia"@,
        final(world).locations@[3].content.npcs@.len() == 1,
        final(world).locations@[3].content.npcs@[0]@ == "goblins"@,
        final(world).locations@[4].content.npcs@.len() == 1,
        final(world).locations@[4].content.npcs@[0]@ == "orcos"@,
        final(world).locations@[8].content.npcs@.len() == 1,
        final(world).locations@[8].content.npcs@[0]@ == "ratas"@,
        final(world).locations@[9].content.npcs@.len() == 1,
        final(world).locations@[9].content.npcs@[0]@ == "esqueletos"@,
{
    proof {
        reveal_strlit("cueva");
        assert("cueva"@ =~= seq!['c', 'u', 'e', 'v', 'a']);
        reveal_strlit("campo");
        assert("campo"@ =~= seq!['c', 'a', 'm', 'p', 'o']);
        reveal_strlit("pueblo");
        assert("pueblo"@ =~= seq!['p', 'u', 'e', 'b', 'l', 'o']);
        reveal_strlit("bosque");
        assert("bosque"@ =~= seq!['b', 'o', 's', 'q', 'u', 'e']);
        reveal_strlit("ruinas");
        assert("ruinas"@ =~= seq!['r', 'u', 'i', 'n', 'a', 's']);
        reveal_strlit("grieta");
        assert("grieta"@ =~= seq!['g', 'r', 'i', 'e', 't', 'a']);
        reveal_strlit("corredor");
        assert("corredor"@ =~= seq!['c', 'o', 'r', 'r', 'e', 'd', 'o', 'r']);
        reveal_strlit("puerta");
        assert("puerta"@ =~= seq!['p', 'u', 'e', 'r', 't', 'a']);
        reveal_strlit("camara");
        assert("camara"@ =~= seq!['c', 'a', 'm', 'a', 'r', 'a']);
        reveal_strlit("laboratorio");
        assert("laboratorio"@ =~= seq!['l', 'a', 'b', 'o', 'r', 'a', 't', 'o', 'r', 'i', 'o']);
        reveal_strlit("biblioteca");
        assert("biblioteca"@ =~= seq!['b', 'i', 'b', 'l', 'i', 'o', 't', 'e', 'c', 'a']);
        reveal_strlit("tesoro");
        assert("tesoro"@ =~= seq!['t', 'e', 's', 'o', 'r', 'o']);
    }
    let mut cueva = Location::new("cueva", "una pequeña cueva", true).with_long_description(
        "Una pequeña cueva con suelo de tierra y paredes de piedra. El aire es fresco y húmedo, y el eco de tus pasos resuena suavemente. Fuera puedes ver campos los de labranza de Woodspring.",
    );
    let mut campo = Location::new("campo", "un campo abierto", true).with_long_description(
        "Un campo abierto, recién labrado. La tierra está fresca y húmeda, lista para la siembra. A poca distancia puedes ver las humildes casas de Woodspring y cerca hay una pequeña cueva que parece ser la entrada a algo más grande.",
    );
    let mut pueblo = Location::new("pueblo", "el pueblo de Woodspring", true).with_long_description(
        "El pueblo de Woodspring, un asentamiento modesto pero acogedor. Unas pocas casas de campesinos se organizan alrededor de una plaza central. Puedes ver un pequeño comercio con su letrero desgastado y una posada con su chimenea humeante. Los campos rodean el pueblo, proporcionando sustento a sus habitantes.",
    );
    let mut bosque = Location::new("bosque", "un bosque de robles", true).with_long_description(
        "Un bosque de robles a las afueras de Woodspring. Los árboles se elevan majestuosamente, sus ramas entrelazadas creando un dosel que filtra la luz del sol. Unas antiguas ruinas emergen de su umbral, sugiriendo una historia olvidada. El bosque se extiende hasta el horizonte, su tamaño es magnífico y su atmósfera, misteriosa.",
    );
    let mut ruinas = Location::new("ruinas", "unas ruinas antiguas", true).with_long_description(
        "Unas ruinas pertenecientes a un antiguo templo dedicado a un dios olvidado. La hiedra cubre gran parte de lo que antaño fueron majestuosas columnas de mármol. Los símbolos grabados en las piedras están desgastados por el tiempo, pero aún se pueden distinguir algunos detalles. El aire aquí es más fresco y hay un silencio reverencial que sugiere que este lugar fue importante en el pasado.",
    );
    let grieta = Location::new("grieta", "una grieta en la pared", false).with_long_description(
        "Una grieta estrecha en el fondo de la cueva. A través de ella se puede ver un corredor oscuro. El espacio es justo lo suficientemente grande para que una persona pueda pasar, pero requiere cierta agilidad. El aire que viene del otro lado es más frío y huele a humedad y antigüedad. El pasadizo está en completa oscuridad, no puedes entrar sin una fuente de luz.",
    );
    let corredor = Location::new("corredor", "un corredor oscuro", true).with_long_description(
        "Un corredor estrecho y oscuro que termina en una puerta de piedra con símbolos grabados. Las paredes están húmedas y el suelo es irregular. La única iluminación proviene de la grieta por la que entraste, creando sombras que bailan en las paredes.",
    );
    let puerta = Location::new("puerta", "una puerta de piedra", true).with_long_description(
        "Una pesada puerta de piedra con símbolos grabados. Los símbolos parecen contar una historia antigua, pero están parcialmente erosionados. La puerta parece estar sellada, pero hay un mecanismo que sugiere que puede ser abierta de alguna manera.",
    );
    let mut camara = Location::new("camara", "una cámara abandonada", true).with_long_description(
        "Esta habtación parece haberse usado tiempo atrás como improvisado dormitorio y cocina. Hay una modesta mesa carcomida en una esquina. Una gruesa capa de polvo lo cubre todo.",
    );
    let mut laboratorio = Location::new(
        "laboratorio",
        "un laboratorio abandonado",
        true,
    ).with_long_description(
        "Un laboratorio abandonado que parece haber sido usado por alquimistas o magos. Mesas de trabajo cubiertas de polvo y estantes con frascos de cristal se alinean en las paredes. Algunos frascos aún contienen restos de líquidos de colores extraños, y hay notas y diagramas esparcidos por las mesas.",
    );
    let mut biblioteca = Location::new(
        "biblioteca",
        "una biblioteca antigua",
        true,
    ).with_long_description(
        "Una biblioteca antigua con estanterías de madera oscura que llegan hasta el techo. Los libros están cubiertos de polvo y algunos parecen estar escritos en idiomas olvidados. El aire huele a papel viejo y madera envejecida.",
    );
    let tesoro = Location::new("tesoro", "una sala de tesoros", true).with_long_description(
        "Una sala de tesoros que parece haber pertenecido a alguien muy importante. Cofres antiguos y estatuas de valor decoran esta cámara. El oro y las gemas brillan a la luz de las antorchas, y el aire está cargado de la emoción de descubrir algo extraordinario.",
    );

    cueva.content.add_item(Item::new("antorcha", "una antorcha"));
    campo.content.add_item(Item::new("cuerda", "una cuerda en buen estado"));
    campo.content.add_item(Item::new("moneda", "una moneda de plata"));
    biblioteca.content.add_item(
        Item::new(
            "libro",
            "un libro de nigromancia, escrito en un idioma antiguo y bastante bien conservado. Anotado en un margen, está el nombre de un mago llamado 'Ainiriand'",
        ),
    );

    pueblo.content.add_npc("guardia");
    bosque.content.add_npc("goblins");
    ruinas.content.add_npc("orcos");
    laboratorio.content.add_npc("esqueletos");
    camara.content.add_npc("ratas");

    world.add_location(cueva);
    world.add_location(campo);
    world.add_location(pueblo);
    world.add_location(bosque);
    world.add_location(ruinas);
    world.add_location(grieta);
    world.add_location(corredor);
    world.add_location(puerta);
    world.add_location(camara);
    world.add_location(laboratorio);
    world.add_location(biblioteca);
    world.add_location(tesoro);
}

/// The shipped edges above ground, between village, fields, cave,
/// forest and ruin; every endpoint resolves, so the graph stays closed
/// and the tags stay put.
#[verifier::rlimit(100)]
fn connect_surface_paths(world: &mut World)
    requires
        old(world).wf(),
        old(world).closed_graph(),
        old(world).locations@.len() == 12,
        old(world).locations@[0].base.tag@ == "cueva"@,
        old(world).locations@[1].base.tag@ == "campo"@,
        old(world).locations@[2].base.tag@ == "pueblo"@,
        old(world).locations@[3].base.tag@ == "bosque"@,
        old(world).locations@[4].base.tag@ == "ruinas"@,
        old(world).locations@[5].base.tag@ == "grieta"@,
        old(world).locations@[6].base.tag@ == "corredor"@,
        old(world).locations@[7].base.tag@ == "puerta"@,
        old(world).locations@[8].base.tag@ == "camara"@,
        old(world).locations@[9].base.tag@ == "laboratorio"@,
        old(world).locations@[10].base.tag@ == "biblioteca"@,
        old(world).locations@[11].base.tag@ == "tesoro"@,
        forall|k: int|
            0 <= k < 12 ==> (#[trigger] old(world).locations@[k]).connections@.len() == 0,
    ensures
        *final(world) == (World { locations: final(world).locations, ..*old(world) }),
        final(world).wf(),
        final(world).closed_graph(),
        final(world).locations@.len() == old(world).locations@.len(),
        forall|k: int|
            0 <= k < old(world).locations@.len() ==> (#[trigger] final(world).locations@[k]).base.tag@ == old(world).locations@[k].base.tag@,
        forall|k: int|
            0 <= k < old(world).locations@.len() ==> (#[trigger] final(world).locations@[k]).content == old(world).locations@[k].content,
        final(world).locations@[0].connections@.len() == 3,
        final(world).locations@[0].connections@[0]@ == "campo"@,
        final(world).locations@[0].connections@[1]@ == "grieta"@,
        final(world).locations@[0].connections@[2]@ == "bosque"@,
        final(world).locations@[1].connections@.len() == 2,
        final(world).locations@[1].connections@[0]@ == "pueblo"@,
        final(world).locations@[1].connections@[1]@ == "cueva"@,
        final(world).locations@[2].connections@.len() == 1,
        final(world).locations@[2].connections@[0]@ == "campo"@,
        final(world).locations@[3].connections@.len() == 2,
        final(world).locations@[3].connections@[0]@ == "cueva"@,
        final(world).locations@[3].connections@[1]@ == "ruinas"@,
        final(world).locations@[4].connections@.len() == 1,
        final(world).locations@[4].connections@[0]@ == "bosque"@,
        forall|k: int|
            5 <= k < 12 ==> (#[trigger] final(world).locations@[k]).connections@.len() == 0,
{
    world.connect("pueblo", "campo");
    proof {
        assert(world.locations@.len() == 12);
        assert(world.locations@[0].connections@.len() == 0);
        assert(world.locations@[1].connections@.len() == 0);
        assert(world.locations@[2].connections@.len() == 1);
        assert(world.locations@[2].connections@[0]@ == "campo"@);
        assert(world.locations@[3].connections@.len() == 0);
        assert(world.locations@[4].connections@.len() == 0);
        assert(world.locations@[5].connections@.len() == 0);
        assert(world.locations@[6].connections@.len() == 0);
        assert(world.locations@[7].connections@.len() == 0);
        assert(world.locations@[8].connections@.len() == 0);
        assert(world.locations@[9].connections@.len() == 0);
        assert(world.locations@[10].connections@.len() == 0);
        assert(world.locations@[11].connections@.len() == 0);
    }
    world.connect("campo", "pueblo");
    proof {
        assert(world.locations@.len() == 12);
        assert(world.locations@[0].connections@.len() == 0);
        assert(world.locations@[1].connections@.len() == 1);
        assert(world.locations@[1].connections@[0]@ == "pueblo"@);
        assert(world.locations@[2].connections@.len() == 1);
        assert(world.locations@[2].connections@[0]@ == "campo"@);
        assert(world.locations@[3].connections@.len() == 0);
        assert(world.locations@[4].connections@.len() == 0);
        assert(world.locations@[5].connections@.len() == 0);
        assert(world.locations@[6].connections@.len() == 0);
        assert(world.locations@[7].connections@.len() == 0);
        assert(world.locations@[8].connections@.len() == 0);
        assert(world.locations@[9].connections@.len() == 0);
        assert(world.locations@[10].connections@.len() == 0);
        assert(world.locations@[11].connections@.len() == 0);
    }
    world.connect("campo", "cueva");
    proof {
        assert(world.locations@.len() == 12);
        assert(world.locations@[0].connections@.len() == 0);
        assert(world.locations@[1].connections@.len() == 2);
        assert(world.locations@[1].connections@[0]@ == "pueblo"@);
        assert(world.locations@[1].connections@[1]@ == "cueva"@);
        assert(world.locations@[2].connections@.len() == 1);
        assert(world.locations@[2].connections@[0]@ == "campo"@);
        assert(world.locations@[3].connections@.len() == 0);
        assert(world.locations@[4].connections@.len() == 0);
        assert(world.locations@[5].connections@.len() == 0);
        assert(world.locations@[6].connections@.len() == 0);
        assert(world.locations@[7].connections@.len() == 0);
        assert(world.locations@[8].connections@.len() == 0);
        assert(world.locations@[9].connections@.len() == 0);
        assert(world.locations@[10].connections@.len() == 0);
        assert(world.locations@[11].connections@.len() == 0);
    }
    world.connect("cueva", "campo");
    proof {
        assert(world.locations@.len() == 12);
        assert(world.locations@[0].connections@.len() == 1);
        assert(world.locations@[0].connections@[0]@ == "campo"@);
        assert(world.locations@[1].connections@.len() == 2);
        assert(world.locations@[1].connections@[0]@ == "pueblo"@);
        assert(world.locations@[1].connections@[1]@ == "cueva"@);
        assert(world.locations@[2].connections@.len() == 1);
        assert(world.locations@[2].connections@[0]@ == "campo"@);
        assert(world.locations@[3].connections@.len() == 0);
        assert(world.locations@[4].connections@.len() == 0);
        assert(world.locations@[5].connections@.len() == 0);
        assert(world.locations@[6].connections@.len() == 0);
        assert(world.locations@[7].connections@.len() == 0);
        assert(world.locations@[8].connections@.len() == 0);
        assert(world.locations@[9].connections@.len() == 0);
        assert(world.locations@[10].connections@.len() == 0);
        assert(world.locations@[11].connections@.len() == 0);
    }
    world.connect("cueva", "grieta");
    proof {
        assert(world.locations@.len() == 12);
        assert(world.locations@[0].connections@.len() == 2);
        assert(world.locations@[0].connections@[0]@ == "campo"@);
        assert(world.locations@[0].connections@[1]@ == "grieta"@);
        assert(world.locations@[1].connections@.len() == 2);
        assert(world.locations@[1].connections@[0]@ == "pueblo"@);
        assert(world.locations@[1].connections@[1]@ == "cueva"@);
        assert(world.locations@[2].connections@.len() == 1);
        assert(world.locations@[2].connections@[0]@ == "campo"@);
        assert(world.locations@[3].connections@.len() == 0);
        assert(world.locations@[4].connections@.len() == 0);
        assert(world.locations@[5].connections@.len() == 0);
        assert(world.locations@[6].connections@.len() == 0);
        assert(world.locations@[7].connections@.len() == 0);
        assert(world.locations@[8].connections@.len() == 0);
        assert(world.locations@[9].connections@.len() == 0);
        assert(world.locations@[10].connections@.len() == 0);
        assert(world.locations@[11].connections@.len() == 0);
    }
    world.connect("cueva", "bosque");
    proof {
        assert(world.locations@.len() == 12);
        assert(world.locations@[0].connections@.len() == 3);
        assert(world.locations@[0].connections@[0]@ == "campo"@);
        assert(world.locations@[0].connections@[1]@ == "grieta"@);
        assert(world.locations@[0].connections@[2]@ == "bosque"@);
        assert(world.locations@[1].connections@.len() == 2);
        assert(world.locations@[1].connections@[0]@ == "pueblo"@);
        assert(world.locations@[1].connections@[1]@ == "cueva"@);
        assert(world.locations@[2].connections@.len() == 1);
        assert(world.locations@[2].connections@[0]@ == "campo"@);
        assert(world.locations@[3].connections@.len() == 0);
        assert(world.locations@[4].connections@.len() == 0);
        assert(world.locations@[5].connections@.len() == 0);
        assert(world.locations@[6].connections@.len() == 0);
        assert(world.locations@[7].connections@.len() == 0);
        assert(world.locations@[8].connections@.len() == 0);
        assert(world.locations@[9].connections@.len() == 0);
        assert(world.locations@[10].connections@.len() == 0);
        assert(world.locations@[11].connections@.len() == 0);
    }
    world.connect("bosque", "cueva");
    proof {
        assert(world.locations@.len() == 12);
        assert(world.locations@[0].connections@.len() == 3);
        assert(world.locations@[0].connections@[0]@ == "campo"@);
        assert(world.locations@[0].connections@[1]@ == "grieta"@);
        assert(world.locations@[0].connections@[2]@ == "bosque"@);
        assert(world.locations@[1].connections@.len() == 2);
        assert(world.locations@[1].connections@[0]@ == "pueblo"@);
        assert(world.locations@[1].connections@[1]@ == "cueva"@);
        assert(world.locations@[2].connections@.len() == 1);
        assert(world.locations@[2].connections@[0]@ == "campo"@);
        assert(world.locations@[3].connections@.len() == 1);
        assert(world.locations@[3].connections@[0]@ == "cueva"@);
        assert(world.locations@[4].connections@.len() == 0);
        assert(world.locations@[5].connections@.len() == 0);
        assert(world.locations@[6].connections@.len() == 0);
        assert(world.locations@[7].connections@.len() == 0);
        assert(world.locations@[8].connections@.len() == 0);
        assert(world.locations@[9].connections@.len() == 0);
        assert(world.locations@[10].connections@.len() == 0);
        assert(world.locations@[11].connections@.len() == 0);
    }
    world.connect("bosque", "ruinas");
    proof {
        assert(world.locations@.len() == 12);
        assert(world.locations@[0].connections@.len() == 3);
        assert(world.locations@[0].connections@[0]@ == "campo"@);
        assert(world.locations@[0].connections@[1]@ == "grieta"@);
        assert(world.locations@[0].connections@[2]@ == "bosque"@);
        assert(world.locations@[1].connections@.len() == 2);
        assert(world.locations@[1].connections@[0]@ == "pueblo"@);
        assert(world.locations@[1].connections@[1]@ == "cueva"@);
        assert(world.locations@[2].connections@.len() == 1);
        assert(world.locations@[2].connections@[0]@ == "campo"@);
        assert(world.locations@[3].connections@.len() == 2);
        assert(world.locations@[3].connections@[0]@ == "cueva"@);
        assert(world.locations@[3].connections@[1]@ == "ruinas"@);
        assert(world.locations@[4].connections@.len() == 0);
        assert(world.locations@[5].connections@.len() == 0);
        assert(world.locations@[6].connections@.len() == 0);
        assert(world.locations@[7].connections@.len() == 0);
        assert(world.locations@[8].connections@.len() == 0);
        assert(world.locations@[9].connections@.len() == 0);
        assert(world.locations@[10].connections@.len() == 0);
        assert(world.locations@[11].connections@.len() == 0);
    }
    world.connect("ruinas", "bosque");
    proof {
        assert(world.locations@.len() == 12);
        assert(world.locations@[0].connections@.len() == 3);
        assert(world.locations@[0].connections@[0]@ == "campo"@);
        assert(world.locations@[0].connections@[1]@ == "grieta"@);
        assert(world.locations@[0].connections@[2]@ == "bosque"@);
        assert(world.locations@[1].connections@.len() == 2);
        assert(world.locations@[1].connections@[0]@ == "pueblo"@);
        assert(world.locations@[1].connections@[1]@ == "cueva"@);
        assert(world.locations@[2].connections@.len() == 1);
        assert(world.locations@[2].connections@[0]@ == "campo"@);
        assert(world.locations@[3].connections@.len() == 2);
        assert(world.locations@[3].connections@[0]@ == "cueva"@);
        assert(world.locations@[3].connections@[1]@ == "ruinas"@);
        assert(world.locations@[4].connections@.len() == 1);
        assert(world.locations@[4].connections@[0]@ == "bosque"@);
        assert(world.locations@[5].connections@.len() == 0);
        assert(world.locations@[6].connections@.len() == 0);
        assert(world.locations@[7].connections@.len() == 0);
        assert(world.locations@[8].connections@.len() == 0);
        assert(world.locations@[9].connections@.len() == 0);
        assert(world.locations@[10].connections@.len() == 0);
        assert(world.locations@[11].connections@.len() == 0);
    }
}

/// The shipped edges of the underground halls behind the crack; every
/// endpoint resolves, so the graph stays closed and the tags stay put.
#[verifier::rlimit(100)]
fn connect_underground_paths(world: &mut World)
    requires
        old(world).wf(),
        old(world).closed_graph(),
        old(world).locations@.len() == 12,
        old(world).locations@[0].base.tag@ == "cueva"@,
        old(world).locations@[1].base.tag@ == "campo"@,
        old(world).locations@[2].base.tag@ == "pueblo"@,
        old(world).locations@[3].base.tag@ == "bosque"@,
        old(world).locations@[4].base.tag@ == "ruinas"@,
        old(world).locations@[5].base.tag@ == "grieta"@,
        old(world).locations@[6].base.tag@ == "corredor"@,
        old(world).locations@[7].base.tag@ == "puerta"@,
        old(world).locations@[8].base.tag@ == "camara"@,
        old(world).locations@[9].base.tag@ == "laboratorio"@,
        old(world).locations@[10].base.tag@ == "biblioteca"@,
        old(world).locations@[11].base.tag@ == "tesoro"@,
        forall|k: int|
            5 <= k < 12 ==> (#[trigger] old(world).locations@[k]).connections@.len() == 0,
    ensures
        *final(world) == (World { locations: final(world).locations, ..*old(world) }),
        final(world).wf(),
        final(world).closed_graph(),
        final(world).locations@.len() == old(world).locations@.len(),
        forall|k: int|
            0 <= k < old(world).locations@.len() ==> (#[trigger] final(world).locations@[k]).base.tag@ == old(world).locations@[k].base.tag@,
        forall|k: int|
            0 <= k < old(world).locations@.len() ==> (#[trigger] final(world).locations@[k]).content == old(world).locations@[k].content,
        forall|k: int|
            0 <= k < 5 ==> (#[trigger] final(world).locations@[k]).connections == old(
                world,
            ).locations@[k].connections,
        final(world).locations@[5].connections@.len() == 2,
        final(world).locations@[5].connections@[0]@ == "cueva"@,
        final(world).locations@[5].connections@[1]@ == "corredor"@,
        final(world).locations@[6].connections@.len() == 2,
        final(world).locations@[6].connections@[0]@ == "grieta"@,
        final(world).locations@[6].connections@[1]@ == "puerta"@,
        final(world).locations@[7].connections@.len() == 2,
        final(world).locations@[7].connections@[0]@ == "corredor"@,
        final(world).locations@[7].connections@[1]@ == "camara"@,
        final(world).locations@[8].connections@.len() == 2,
        final(world).locations@[8].connections@[0]@ == "puerta"@,
        final(world).locations@[8].connections@[1]@ == "laboratorio"@,
        final(world).locations@[9].connections@.len() == 2,
        final(world).locations@[9].connections@[0]@ == "camara"@,
        final(world).locations@[9].connections@[1]@ == "biblioteca"@,
        final(world).locations@[10].connections@.len() == 2,
        final(world).locations@[10].connections@[0]@ == "laboratorio"@,
        final(world).locations@[10].connections@[1]@ == "tesoro"@,
        final(world).locations@[11].connections@.len() == 1,
        final(world).locations@[11].connections@[0]@ == "biblioteca"@,
{
    world.connect("grieta", "cueva");
    proof {
        assert(world.locations@.len() == 12);
        assert(world.locations@[5].connections@.len() == 1);
        assert(world.locations@[5].connections@[0]@ == "cueva"@);
        assert(world.locations@[6].connections@.len() == 0);
        assert(world.locations@[7].connections@.len() == 0);
        assert(world.locations@[8].connections@.len() == 0);
        assert(world.locations@[9].connections@.len() == 0);
        assert(world.locations@[10].connections@.len() == 0);
        assert(world.locations@[11].connections@.len() == 0);
        assert(forall|k: int| 0 <= k < 5 ==> (#[trigger] world.locations@[k]).connections == old(world).locations@[k].connections);
    }
    world.connect("grieta", "corredor");
    proof {
        assert(world.locations@.len() == 12);
        assert(world.locations@[5].connections@.len() == 2);
        assert(world.locations@[5].connections@[0]@ == "cueva"@);
        assert(world.locations@[5].connections@[1]@ == "corredor"@);
        assert(world.locations@[6].connections@.len() == 0);
        assert(world.locations@[7].connections@.len() == 0);
        assert(world.locations@[8].connections@.len() == 0);
        assert(world.locations@[9].connections@.len() == 0);
        assert(world.locations@[10].connections@.len() == 0);
        assert(world.locations@[11].connections@.len() == 0);
        assert(forall|k: int| 0 <= k < 5 ==> (#[trigger] world.locations@[k]).connections == old(world).locations@[k].connections);
    }
    world.connect("corredor", "grieta");
    proof {
        assert(world.locations@.len() == 12);
        assert(world.locations@[5].connections@.len() == 2);
        assert(world.locations@[5].connections@[0]@ == "cueva"@);
        assert(world.locations@[5].connections@[1]@ == "corredor"@);
        assert(world.locations@[6].connections@.len() == 1);
        assert(world.locations@[6].connections@[0]@ == "grieta"@);
        assert(world.locations@[7].connections@.len() == 0);
        assert(world.locations@[8].connections@.len() == 0);
        assert(world.locations@[9].connections@.len() == 0);
        assert(world.locations@[10].connections@.len() == 0);
        assert(world.locations@[11].connections@.len() == 0);
        assert(forall|k: int| 0 <= k < 5 ==> (#[trigger] world.locations@[k]).connections == old(world).locations@[k].connections);
    }
    world.connect("corredor", "puerta");
    proof {
        assert(world.locations@.len() == 12);
        assert(world.locations@[5].connections@.len() == 2);
        assert(world.locations@[5].connections@[0]@ == "cueva"@);
        assert(world.locations@[5].connections@[1]@ == "corredor"@);
        assert(world.locations@[6].connections@.len() == 2);
        assert(world.locations@[6].connections@[0]@ == "grieta"@);
        assert(world.locations@[6].connections@[1]@ == "puerta"@);
        assert(world.locations@[7].connections@.len() == 0);
        assert(world.locations@[8].connections@.len() == 0);
        assert(world.locations@[9].connections@.len() == 0);
        assert(world.locations@[10].connections@.len() == 0);
        assert(world.locations@[11].connections@.len() == 0);
        assert(forall|k: int| 0 <= k < 5 ==> (#[trigger] world.locations@[k]).connections == old(world).locations@[k].connections);
    }
    world.connect("puerta", "corredor");
    proof {
        assert(world.locations@.len() == 12);
        assert(world.locations@[5].connections@.len() == 2);
        assert(world.locations@[5].connections@[0]@ == "cueva"@);
        assert(world.locations@[5].connections@[1]@ == "corredor"@);
        assert(world.locations@[6].connections@.len() == 2);
        assert(world.locations@[6].connections@[0]@ == "grieta"@);
        assert(world.locations@[6].connections@[1]@ == "puerta"@);
        assert(world.locations@[7].connections@.len() == 1);
        assert(world.locations@[7].connections@[0]@ == "corredor"@);
        assert(world.locations@[8].connections@.len() == 0);
        assert(world.locations@[9].connections@.len() == 0);
        assert(world.locations@[10].connections@.len() == 0);
        assert(world.locations@[11].connections@.len() == 0);
        assert(forall|k: int| 0 <= k < 5 ==> (#[trigger] world.locations@[k]).connections == old(world).locations@[k].connections);
    }
    world.connect("puerta", "camara");
    proof {
        assert(world.locations@.len() == 12);
        assert(world.locations@[5].connections@.len() == 2);
        assert(world.locations@[5].connections@[0]@ == "cueva"@);
        assert(world.locations@[5].connections@[1]@ == "corredor"@);
        assert(world.locations@[6].connections@.len() == 2);
        assert(world.locations@[6].connections@[0]@ == "grieta"@);
        assert(world.locations@[6].connections@[1]@ == "puerta"@);
        assert(world.locations@[7].connections@.len() == 2);
        assert(world.locations@[7].connections@[0]@ == "corredor"@);
        assert(world.locations@[7].connections@[1]@ == "camara"@);
        assert(world.locations@[8].connections@.len() == 0);
        assert(world.locations@[9].connections@.len() == 0);
        assert(world.locations@[10].connections@.len() == 0);
        assert(world.locations@[11].connections@.len() == 0);
        assert(forall|k: int| 0 <= k < 5 ==> (#[trigger] world.locations@[k]).connections == old(world).locations@[k].connections);
    }
    world.connect("camara", "puerta");
    proof {
        assert(world.locations@.len() == 12);
        assert(world.locations@[5].connections@.len() == 2);
        assert(world.locations@[5].connections@[0]@ == "cueva"@);
        assert(world.locations@[5].connections@[1]@ == "corredor"@);
        assert(world.locations@[6].connections@.len() == 2);
        assert(world.locations@[6].connections@[0]@ == "grieta"@);
        assert(world.locations@[6].connections@[1]@ == "puerta"@);
        assert(world.locations@[7].connections@.len() == 2);
        assert(world.locations@[7].connections@[0]@ == "corredor"@);
        assert(world.locations@[7].connections@[1]@ == "camara"@);
        assert(world.locations@[8].connections@.len() == 1);
        assert(world.locations@[8].connections@[0]@ == "puerta"@);
        assert(world.locations@[9].connections@.len() == 0);
        assert(world.locations@[10].connections@.len() == 0);
        assert(world.locations@[11].connections@.len() == 0);
        assert(forall|k: int| 0 <= k < 5 ==> (#[trigger] world.locations@[k]).connections == old(world).locations@[k].connections);
    }
    world.connect("camara", "laboratorio");
    proof {
        assert(world.locations@.len() == 12);
        assert(world.locations@[5].connections@.len() == 2);
        assert(world.locations@[5].connections@[0]@ == "cueva"@);
        assert(world.locations@[5].connections@[1]@ == "corredor"@);
        assert(world.locations@[6].connections@.len() == 2);
        assert(world.locations@[6].connections@[0]@ == "grieta"@);
        assert(world.locations@[6].connections@[1]@ == "puerta"@);
        assert(world.locations@[7].connections@.len() == 2);
        assert(world.locations@[7].connections@[0]@ == "corredor"@);
        assert(world.locations@[7].connections@[1]@ == "camara"@);
        assert(world.locations@[8].connections@.len() == 2);
        assert(world.locations@[8].connections@[0]@ == "puerta"@);
        assert(world.locations@[8].connections@[1]@ == "laboratorio"@);
        assert(world.locations@[9].connections@.len() == 0);
        assert(world.locations@[10].connections@.len() == 0);
        assert(world.locations@[11].connections@.len() == 0);
        assert(forall|k: int| 0 <= k < 5 ==> (#[trigger] world.locations@[k]).connections == old(world).locations@[k].connections);
    }
    world.connect("laboratorio", "camara");
    proof {
        assert(world.locations@.len() == 12);
        assert(world.locations@[5].connections@.len() == 2);
        assert(world.locations@[5].connections@[0]@ == "cueva"@);
        assert(world.locations@[5].connections@[1]@ == "corredor"@);
        assert(world.locations@[6].connections@.len() == 2);
        assert(world.locations@[6].connections@[0]@ == "grieta"@);
        assert(world.locations@[6].connections@[1]@ == "puerta"@);
        assert(world.locations@[7].connections@.len() == 2);
        assert(world.locations@[7].connections@[0]@ == "corredor"@);
        assert(world.locations@[7].connections@[1]@ == "camara"@);
        assert(world.locations@[8].connections@.len() == 2);
        assert(world.locations@[8].connections@[0]@ == "puerta"@);
        assert(world.locations@[8].connections@[1]@ == "laboratorio"@);
        assert(world.locations@[9].connections@.len() == 1);
        assert(world.locations@[9].connections@[0]@ == "camara"@);
        assert(world.locations@[10].connections@.len() == 0);
        assert(world.locations@[11].connections@.len() == 0);
        assert(forall|k: int| 0 <= k < 5 ==> (#[trigger] world.locations@[k]).connections == old(world).locations@[k].connections);
    }
    world.connect("laboratorio", "biblioteca");
    proof {
        assert(world.locations@.len() == 12);
        assert(world.locations@[5].connections@.len() == 2);
        assert(world.locations@[5].connections@[0]@ == "cueva"@);
        assert(world.locations@[5].connections@[1]@ == "corredor"@);
        assert(world.locations@[6].connections@.len() == 2);
        assert(world.locations@[6].connections@[0]@ == "grieta"@);
        assert(world.locations@[6].connections@[1]@ == "puerta"@);
        assert(world.locations@[7].connections@.len() == 2);
        assert(world.locations@[7].connections@[0]@ == "corredor"@);
        assert(world.locations@[7].connections@[1]@ == "camara"@);
        assert(world.locations@[8].connections@.len() == 2);
        assert(world.locations@[8].connections@[0]@ == "puerta"@);
        assert(world.locations@[8].connections@[1]@ == "laboratorio"@);
        assert(world.locations@[9].connections@.len() == 2);
        assert(world.locations@[9].connections@[0]@ == "camara"@);
        assert(world.locations@[9].connections@[1]@ == "biblioteca"@);
        assert(world.locations@[10].connections@.len() == 0);
        assert(world.locations@[11].connections@.len() == 0);
        assert(forall|k: int| 0 <= k < 5 ==> (#[trigger] world.locations@[k]).connections == old(world).locations@[k].connections);
    }
    world.connect("biblioteca", "laboratorio");
    proof {
        assert(world.locations@.len() == 12);
        assert(world.locations@[5].connections@.len() == 2);
        assert(world.locations@[5].connections@[0]@ == "cueva"@);
        assert(world.locations@[5].connections@[1]@ == "corredor"@);
        assert(world.locations@[6].connections@.len() == 2);
        assert(world.locations@[6].connections@[0]@ == "grieta"@);
        assert(world.locations@[6].connections@[1]@ == "puerta"@);
        assert(world.locations@[7].connections@.len() == 2);
        assert(world.locations@[7].connections@[0]@ == "corredor"@);
        assert(world.locations@[7].connections@[1]@ == "camara"@);
        assert(world.locations@[8].connections@.len() == 2);
        assert(world.locations@[8].connections@[0]@ == "puerta"@);
        assert(world.locations@[8].connections@[1]@ == "laboratorio"@);
        assert(world.locations@[9].connections@.len() == 2);
        assert(world.locations@[9].connections@[0]@ == "camara"@);
        assert(world.locations@[9].connections@[1]@ == "biblioteca"@);
        assert(world.locations@[10].connections@.len() == 1);
        assert(world.locations@[10].connections@[0]@ == "laboratorio"@);
        assert(world.locations@[11].connections@.len() == 0);
        assert(forall|k: int| 0 <= k < 5 ==> (#[trigger] world.locations@[k]).connections == old(world).locations@[k].connections);
    }
    world.connect("biblioteca", "tesoro");
    proof {
        assert(world.locations@.len() == 12);
        assert(world.locations@[5].connections@.len() == 2);
        assert(world.locations@[5].connections@[0]@ == "cueva"@);
        assert(world.locations@[5].connections@[1]@ == "corredor"@);
        assert(world.locations@[6].connections@.len() == 2);
        assert(world.locations@[6].connections@[0]@ == "grieta"@);
        assert(world.locations@[6].connections@[1]@ == "puerta"@);
        assert(world.locations@[7].connections@.len() == 2);
        assert(world.locations@[7].connections@[0]@ == "corredor"@);
        assert(world.locations@[7].connections@[1]@ == "camara"@);
        assert(world.locations@[8].connections@.len() == 2);
        assert(world.locations@[8].connections@[0]@ == "puerta"@);
        assert(world.locations@[8].connections@[1]@ == "laboratorio"@);
        assert(world.locations@[9].connections@.len() == 2);
        assert(world.locations@[9].connections@[0]@ == "camara"@);
        assert(world.locations@[9].connections@[1]@ == "biblioteca"@);
        assert(world.locations@[10].connections@.len() == 2);
        assert(world.locations@[10].connections@[0]@ == "laboratorio"@);
        assert(world.locations@[10].connections@[1]@ == "tesoro"@);
        assert(world.locations@[11].connections@.len() == 0);
        assert(forall|k: int| 0 <= k < 5 ==> (#[trigger] world.locations@[k]).connections == old(world).locations@[k].connections);
    }
    world.connect("tesoro", "biblioteca");
    proof {
        assert(world.locations@.len() == 12);
        assert(world.locations@[5].connections@.len() == 2);
        assert(world.locations@[5].connections@[0]@ == "cueva"@);
        assert(world.locations@[5].connections@[1]@ == "corredor"@);
        assert(world.locations@[6].connections@.len() == 2);
        assert(world.locations@[6].connections@[0]@ == "grieta"@);
        assert(world.locations@[6].connections@[1]@ == "puerta"@);
        assert(world.locations@[7].connections@.len() == 2);
        assert(world.locations@[7].connections@[0]@ == "corredor"@);
        assert(world.locations@[7].connections@[1]@ == "camara"@);
        assert(world.locations@[8].connections@.len() == 2);
        assert(world.locations@[8].connections@[0]@ == "puerta"@);
        assert(world.locations@[8].connections@[1]@ == "laboratorio"@);
        assert(world.locations@[9].connections@.len() == 2);
        assert(world.locations@[9].connections@[0]@ == "camara"@);
        assert(world.locations@[9].connections@[1]@ == "biblioteca"@);
        assert(world.locations@[10].connections@.len() == 2);
        assert(world.locations@[10].connections@[0]@ == "laboratorio"@);
        assert(world.locations@[10].connections@[1]@ == "tesoro"@);
        assert(world.locations@[11].connections@.len() == 1);
        assert(world.locations@[11].connections@[0]@ == "biblioteca"@);
        assert(forall|k: int| 0 <= k < 5 ==> (#[trigger] world.locations@[k]).connections == old(world).locations@[k].connections);
    }
}

/// The eight shipped items, registered in order under their tags.
#[verifier::rlimit(100)]
fn add_shipped_items(world: &mut World)
    requires
        old(world).items@.len() == 0,
        old(world).wf(),
        old(world).closed_graph(),
    ensures
        *final(world) == (World { items: final(world).items, ..*old(world) }),
        final(world).wf(),
        final(world).closed_graph(),
        final(world).items@.len() == 8,
        final(world).items@[0].base.tag@ == "espada"@,
        final(world).items@[1].base.tag@ == "daga"@,
        final(world).items@[2].base.tag@ == "hacha"@,
        final(world).items@[3].base.tag@ == "escudo"@,
        final(world).items@[4].base.tag@ == "armadura"@,
        final(world).items@[5].base.tag@ == "armadura_pesada"@,
        final(world).items@[6].base.tag@ == "antorcha"@,
        final(world).items@[7].base.tag@ == "llave"@,
{
    proof {
        reveal_strlit("espada");
        assert("espada"@ =~= seq!['e', 's', 'p', 'a', 'd', 'a']);
        reveal_strlit("daga");
        assert("daga"@ =~= seq!['d', 'a', 'g', 'a']);
        reveal_strlit("hacha");
        assert("hacha"@ =~= seq!['h', 'a', 'c', 'h', 'a']);
        reveal_strlit("escudo");
        assert("escudo"@ =~= seq!['e', 's', 'c', 'u', 'd', 'o']);
        reveal_strlit("armadura");
        assert("armadura"@ =~= seq!['a', 'r', 'm', 'a', 'd', 'u', 'r', 'a']);
        reveal_strlit("armadura_pesada");
        assert("armadura_pesada"@ =~= seq![
            'a',
            'r',
            'm',
            'a',
            'd',
            'u',
            'r',
            'a',
            '_',
            'p',
            'e',
            's',
            'a',
            'd',
            'a',
        ]);
        reveal_strlit("antorcha");
        assert("antorcha"@ =~= seq!['a', 'n', 't', 'o', 'r', 'c', 'h', 'a']);
        reveal_strlit("llave");
        assert("llave"@ =~= seq!['l', 'l', 'a', 'v', 'e']);
    }
    world.add_item(
        Item::new_equipment(
            "espada",
            "una espada de acero",
            true,
            EquipmentType::Weapon(WeaponType::Medium),
        ),
    );
    world.add_item(
        Item::new_equipment(
            "daga",
            "una daga ligera",
            true,
            EquipmentType::Weapon(WeaponType::Light),
        ),
    );
    world.add_item(
        Item::new_equipment(
            "hacha",
            "un hacha de batalla",
            true,
            EquipmentType::Weapon(WeaponType::Heavy),
        ),
    );
    world.add_item(
        Item::new_equipment("escudo", "un escudo de madera", true, EquipmentType::Shield),
    );
    world.add_item(
        Item::new_equipment(
            "armadura",
            "una armadura de cuero",
            true,
            EquipmentType::Armor(ArmorType::Light),
        ),
    );
    world.add_item(
        Item::new_equipment(
            "armadura_pesada",
            "una armadura de placas",
            true,
            EquipmentType::Armor(ArmorType::Heavy),
        ),
    );
    world.add_item(Item::new("antorcha", "una antorcha encendida"));
    world.add_item(Item::new("llave", "una llave de hierro"));
}

/// The five shipped groups, registered in order under their tags.
#[verifier::rlimit(100)]
fn add_shipped_npcs(world: &mut World)
    requires
        old(world).npcs@.len() == 0,
        old(world).wf(),
        old(world).closed_graph(),
    ensures
        *final(world) == (World { npcs: final(world).npcs, ..*old(world) }),
        final(world).wf(),
        final(world).closed_graph(),
        final(world).npcs@.len() == 5,
        final(world).npcs@[0].base.tag@ == "guardia"@,
        final(world).npcs@[1].base.tag@ == "goblins"@,
        final(world).npcs@[2].base.tag@ == "orcos"@,
        final(world).npcs@[3].base.tag@ == "ratas"@,
        final(world).npcs@[4].base.tag@ == "esqueletos"@,
{
    proof {
        reveal_strlit("guardia");
        assert("guardia"@ =~= seq!['g', 'u', 'a', 'r', 'd', 'i', 'a']);
        reveal_strlit("goblins");
        assert("goblins"@ =~= seq!['g', 'o', 'b', 'l', 'i', 'n', 's']);
        reveal_strlit("orcos");
        assert("orcos"@ =~= seq!['o', 'r', 'c', 'o', 's']);
        reveal_strlit("ratas");
        assert("ratas"@ =~= seq!['r', 'a', 't', 'a', 's']);
        reveal_strlit("esqueletos");
        assert("esqueletos"@ =~= seq!['e', 's', 'q', 'u', 'e', 'l', 'e', 't', 'o', 's']);
    }
    let mut guardia = NPC::new(
        "guardia",
        "una guardia de aspecto amable, armada con una lanza y armadura ligera de cuero",
        "pueblo",
        true,
    ).with_attitude(Attitude::Friendly).with_level(3);
    guardia.add_dialogue("Bienvenido a Woodspring. ¿En qué puedo ayudarte?");
    guardia.add_dialogue("Ten cuidado en el bosque, dicen que hay criaturas extrañas.");
    guardia.add_tag(NPCTag::Human);
    guardia.add_tag(NPCTag::Guard);
    world.add_npc(guardia);

    let mut goblins = NPC::new("goblins", "un grupo de goblins", "bosque", true).with_attitude(
        Attitude::Hostile,
    ).with_level(3).with_count(4);
    goblins.add_tag(NPCTag::Goblin);
    goblins.add_tag(NPCTag::Monster);
    world.add_npc(goblins);

    let mut orcos = NPC::new("orcos", "un grupo de orcos", "ruinas", true).with_attitude(
        Attitude::Hostile,
    ).with_level(4).with_count(7);
    orcos.add_tag(NPCTag::Orc);
    orcos.add_tag(NPCTag::Monster);
    world.add_npc(orcos);

    let mut ratas = NPC::new("ratas", "un grupo de ratas hambrientas", "camara", true)
        .with_attitude(Attitude::Hostile).with_level(1).with_count(10);
    ratas.add_tag(NPCTag::Vermin);
    world.add_npc(ratas);

    let mut esqueletos = NPC::new("esqueletos", "un grupo de esqueletos", "laboratorio", true)
        .with_attitude(Attitude::Hostile).with_level(3).with_count(6);
    esqueletos.add_tag(NPCTag::Undead);
    esqueletos.add_tag(NPCTag::Monster);
    world.add_npc(esqueletos);
}

/// The six shipped passages, registered in order under their tags.
#[verifier::rlimit(100)]
fn add_shipped_passages(world: &mut World)
    requires
        old(world).passages@.len() == 0,
        old(world).wf(),
        old(world).closed_graph(),
    ensures
        *final(world) == (World { passages: final(world).passages, ..*old(world) }),
        final(world).wf(),
        final(world).closed_graph(),
        final(world).passages@.len() == 6,
        final(world).passages@[0].base.tag@ == "grieta"@,
        final(world).passages@[1].base.tag@ == "corredor"@,
        final(world).passages@[2].base.tag@ == "puerta"@,
        final(world).passages@[3].base.tag@ == "laboratorio"@,
        final(world).passages@[4].base.tag@ == "biblioteca"@,
        final(world).passages@[5].base.tag@ == "tesoro"@,
        final(world).passages@[0].from@ == "cueva"@ && final(world).passages@[0].to@ == "grieta"@,
        !final(world).passages@[0].requires_item && !final(world).passages@[0].requires_key
            && !final(world).passages@[0].has_riddle,
        final(world).passages@[1].from@ == "grieta"@ && final(world).passages@[1].to@
            == "corredor"@,
        final(world).passages@[1].requires_item && (final(world).passages@[1].item_tag matches Some(
        t) && t@ == "antorcha"@),
        !final(world).passages@[1].requires_key && !final(world).passages@[1].has_riddle,
        final(world).passages@[2].from@ == "puerta"@ && final(world).passages@[2].to@ == "camara"@,
        final(world).passages@[2].has_riddle && (final(world).passages@[2].riddle_answer matches Some(
        a) && a@ == "vela"@),
        !final(world).passages@[2].requires_item && !final(world).passages@[2].requires_key,
        final(world).passages@[3].from@ == "camara"@ && final(world).passages@[3].to@
            == "laboratorio"@,
        !final(world).passages@[3].requires_item && !final(world).passages@[3].requires_key
            && !final(world).passages@[3].has_riddle,
        final(world).passages@[4].from@ == "laboratorio"@ && final(world).passages@[4].to@
            == "biblioteca"@,
        !final(world).passages@[4].requires_item && !final(world).passages@[4].requires_key
            && !final(world).passages@[4].has_riddle,
        final(world).passages@[5].from@ == "biblioteca"@ && final(world).passages@[5].to@
            == "tesoro"@,
        final(world).passages@[5].requires_key && (final(world).passages@[5].key_tag matches Some(
        k) && k@ == "llave"@),
        !final(world).passages@[5].requires_item && !final(world).passages@[5].has_riddle,
{
    proof {
        reveal_strlit("grieta");
        assert("grieta"@ =~= seq!['g', 'r', 'i', 'e', 't', 'a']);
        reveal_strlit("corredor");
        assert("corredor"@ =~= seq!['c', 'o', 'r', 'r', 'e', 'd', 'o', 'r']);
        reveal_strlit("puerta");
        assert("puerta"@ =~= seq!['p', 'u', 'e', 'r', 't', 'a']);
        reveal_strlit("laboratorio");
        assert("laboratorio"@ =~= seq!['l', 'a', 'b', 'o', 'r', 'a', 't', 'o', 'r', 'i', 'o']);
        reveal_strlit("biblioteca");
        assert("biblioteca"@ =~= seq!['b', 'i', 'b', 'l', 'i', 'o', 't', 'e', 'c', 'a']);
        reveal_strlit("tesoro");
        assert("tesoro"@ =~= seq!['t', 'e', 's', 'o', 'r', 'o']);
    }
    world.add_passage(
        Passage::new(
            "grieta",
            "una grieta estrecha en la pared trasera de la cueva. Parece que se puede atravesar si encuentras una antorcha.",
            "cueva",
            "grieta",
            false,
        ),
    );
    world.add_passage(
        Passage::new(
            "corredor",
            "un estrecho corredor, en completa oscuridad, es difícil ver lo que hay delante. Parece que se puede atravesar si encuentras una antorcha.",
            "grieta",
            "corredor",
            false,
        ).with_item("antorcha"),
    );
    world.add_passage(
        Passage::new(
            "puerta",
            "una puerta de piedra con símbolos grabados",
            "puerta",
            "camara",
            true,
        ).with_riddle("Soy alto cuando soy joven y bajo cuando soy viejo. ¿Qué soy?", "vela"),
    );
    world.add_passage(
        Passage::new(
            "laboratorio",
            "un pasillo que conduce al laboratorio",
            "camara",
            "laboratorio",
            true,
        ),
    );
    world.add_passage(
        Passage::new(
            "biblioteca",
            "un pasillo que conduce a la biblioteca",
            "laboratorio",
            "biblioteca",
            true,
        ),
    );
    world.add_passage(
        Passage::new(
            "tesoro",
            "una trampilla que conduce a una pequeña sala de tesoros",
            "biblioteca",
            "tesoro",
            true,
        ).with_key("llave"),
    );
}

/// Builds the world of Woodspring: a village among fields, a cave that
/// hides a crack into old underground halls, a forest and a ruin. The
/// catalog comes out well formed, with a closed connection graph, and
/// carries the twelve shipped locations, eight items, five groups and
/// six passages under their tags.
pub fn default_world() -> (r: World)
    ensures
        r.wf(),
        r.closed_graph(),
        r.locations@.len() == 12,
        r.locations@[0].base.tag@ == "cueva"@,
        r.locations@[1].base.tag@ == "campo"@,
        r.locations@[2].base.tag@ == "pueblo"@,
        r.locations@[3].base.tag@ == "bosque"@,
        r.locations@[4].base.tag@ == "ruinas"@,
        r.locations@[5].base.tag@ == "grieta"@,
        r.locations@[6].base.tag@ == "corredor"@,
        r.locations@[7].base.tag@ == "puerta"@,
        r.locations@[8].base.tag@ == "camara"@,
        r.locations@[9].base.tag@ == "laboratorio"@,
        r.locations@[10].base.tag@ == "biblioteca"@,
        r.locations@[11].base.tag@ == "tesoro"@,
        r.items@.len() == 8,
        r.items@[0].base.tag@ == "espada"@,
        r.items@[1].base.tag@ == "daga"@,
        r.items@[2].base.tag@ == "hacha"@,
        r.items@[3].base.tag@ == "escudo"@,
        r.items@[4].base.tag@ == "armadura"@,
        r.items@[5].base.tag@ == "armadura_pesada"@,
        r.items@[6].base.tag@ == "antorcha"@,
        r.items@[7].base.tag@ == "llave"@,
        r.npcs@.len() == 5,
        r.npcs@[0].base.tag@ == "guardia"@,
        r.npcs@[1].base.tag@ == "goblins"@,
        r.npcs@[2].base.tag@ == "orcos"@,
        r.npcs@[3].base.tag@ == "ratas"@,
        r.npcs@[4].base.tag@ == "esqueletos"@,
        r.passages@.len() == 6,
        r.passages@[0].base.tag@ == "grieta"@,
        r.passages@[1].base.tag@ == "corredor"@,
        r.passages@[2].base.tag@ == "puerta"@,
        r.passages@[3].base.tag@ == "laboratorio"@,
        r.passages@[4].base.tag@ == "biblioteca"@,
        r.passages@[5].base.tag@ == "tesoro"@,
        r.locations@[0].connections@.len() == 3,
        r.locations@[0].connections@[0]@ == "campo"@,
        r.locations@[0].connections@[1]@ == "grieta"@,
        r.locations@[0].connections@[2]@ == "bosque"@,
        r.locations@[1].connections@.len() == 2,
        r.locations@[1].connections@[0]@ == "pueblo"@,
        r.locations@[1].connections@[1]@ == "cueva"@,
        r.locations@[2].connections@.len() == 1,
        r.locations@[2].connections@[0]@ == "campo"@,
        r.locations@[3].connections@.len() == 2,
        r.locations@[3].connections@[0]@ == "cueva"@,
        r.locations@[3].connections@[1]@ == "ruinas"@,
        r.locations@[4].connections@.len() == 1,
        r.locations@[4].connections@[0]@ == "bosque"@,
        r.locations@[5].connections@.len() == 2,
        r.locations@[5].connections@[0]@ == "cueva"@,
        r.locations@[5].connections@[1]@ == "corredor"@,
        r.locations@[6].connections@.len() == 2,
        r.locations@[6].connections@[0]@ == "grieta"@,
        r.locations@[6].connections@[1]@ == "puerta"@,
        r.locations@[7].connections@.len() == 2,
        r.locations@[7].connections@[0]@ == "corredor"@,
        r.locations@[7].connections@[1]@ == "camara"@,
        r.locations@[8].connections@.len() == 2,
        r.locations@[8].connections@[0]@ == "puerta"@,
        r.locations@[8].connections@[1]@ == "laboratorio"@,
        r.locations@[9].connections@.len() == 2,
        r.locations@[9].connections@[0]@ == "camara"@,
        r.locations@[9].connections@[1]@ == "biblioteca"@,
        r.locations@[10].connections@.len() == 2,
        r.locations@[10].connections@[0]@ == "laboratorio"@,
        r.locations@[10].connections@[1]@ == "tesoro"@,
        r.locations@[11].connections@.len() == 1,
        r.locations@[11].connections@[0]@ == "biblioteca"@,
        r.locations@[0].content.items@.len() == 1,
        r.locations@[0].content.items@[0].base.tag@ == "antorcha"@,
        r.locations@[1].content.items@.len() == 2,
        r.locations@[1].content.items@[0].base.tag@ == "cuerda"@,
        r.locations@[1].content.items@[1].base.tag@ == "moneda"@,
        r.locations@[10].content.items@.len() == 1,
        r.locations@[10].content.items@[0].base.tag@ == "libro"@,
        r.locations@[2].content.npcs@.len() == 1,
        r.locations@[2].content.npcs@[0]@ == "guardia"@,
        r.locations@[3].content.npcs@.len() == 1,
        r.locations@[3].content.npcs@[0]@ == "goblins"@,
        r.locations@[4].content.npcs@.len() == 1,
        r.locations@[4].content.npcs@[0]@ == "orcos"@,
        r.locations@[8].content.npcs@.len() == 1,
        r.locations@[8].content.npcs@[0]@ == "ratas"@,
        r.locations@[9].content.npcs@.len() == 1,
        r.locations@[9].content.npcs@[0]@ == "esqueletos"@,
        r.passages@[0].from@ == "cueva"@ && r.passages@[0].to@ == "grieta"@,
        !r.passages@[0].requires_item && !r.passages@[0].requires_key
            && !r.passages@[0].has_riddle,
        r.passages@[1].from@ == "grieta"@ && r.passages@[1].to@ == "corredor"@,
        r.passages@[1].requires_item && (r.passages@[1].item_tag matches Some(t) && t@
            == "antorcha"@),
        !r.passages@[1].requires_key && !r.passages@[1].has_riddle,
        r.passages@[2].from@ == "puerta"@ && r.passages@[2].to@ == "camara"@,
        r.passages@[2].has_riddle && (r.passages@[2].riddle_answer matches Some(a) && a@
            == "vela"@),
        !r.passages@[2].requires_item && !r.passages@[2].requires_key,
        r.passages@[3].from@ == "camara"@ && r.passages@[3].to@ == "laboratorio"@,
        !r.passages@[3].requires_item && !r.passages@[3].requires_key
            && !r.passages@[3].has_riddle,
        r.passages@[4].from@ == "laboratorio"@ && r.passages@[4].to@ == "biblioteca"@,
        !r.passages@[4].requires_item && !r.passages@[4].requires_key
            && !r.passages@[4].has_riddle,
        r.passages@[5].from@ == "biblioteca"@ && r.passages@[5].to@ == "tesoro"@,
        r.passages@[5].requires_key && (r.passages@[5].key_tag matches Some(k) && k@ == "llave"@),
        !r.passages@[5].requires_item && !r.passages@[5].has_riddle,
{
    let mut world = World::new();

    add_shipped_locations(&mut world);
    connect_surface_paths(&mut world);
    connect_underground_paths(&mut world);
    add_shipped_items(&mut world);
    add_shipped_npcs(&mut world);
    add_shipped_passages(&mut world);

    world
}

/// Builds the encounter table shipped with the game: seven graded
/// entries under their tags.
pub fn default_enemies() -> (r: Vec<Enemy>)
    ensures
        r@.len() == 7,
        r@[0].base.base.tag@ == "goblin"@,
        r@[1].base.base.tag@ == "lobo"@,
        r@[2].base.base.tag@ == "orco"@,
        r@[3].base.base.tag@ == "esqueleto"@,
        r@[4].base.base.tag@ == "troll"@,
        r@[5].base.base.tag@ == "mimico"@,
        r@[6].base.base.tag@ == "hechicero_oscuro"@,
{
    let mut enemies: Vec<Enemy> = Vec::new();

    enemies.push(
        Enemy::new("goblin", "un goblin pequeño y maloliente", "bosque", 1, 1, 3, 50).with_loot(
            vec!["daga", "pocion_menor"],
        ).with_count(4).with_tags(vec![NPCTag::Goblin, NPCTag::Monster]),
    );
    enemies.push(
        Enemy::new("lobo", "un lobo salvaje y hambriento", "bosque", 2, 2, 4, 75).with_loot(
            vec!["pocion_menor"],
        ).with_count(3).with_tags(vec![NPCTag::Beast, NPCTag::Monster]),
    );
    enemies.push(
        Enemy::new("orco", "un orco musculoso y agresivo", "ruinas", 3, 3, 5, 100).with_loot(
            vec!["hacha", "armadura", "pocion_menor"],
        ).with_count(2).with_tags(vec![NPCTag::Orc, NPCTag::Monster]),
    );
    enemies.push(
        Enemy::new("esqueleto", "un esqueleto animado con ojos brillantes", "ruinas", 2, 2, 4, 80)
            .with_loot(vec!["espada", "pocion_menor"]).with_count(3).with_tags(
            vec![NPCTag::Undead, NPCTag::Monster],
        ),
    );
    enemies.push(
        Enemy::new("troll", "un troll enorme y regenerativo", "mazmorra", 4, 4, 6, 150).with_loot(
            vec!["hacha", "armadura_pesada", "pocion_mayor"],
        ).with_count(1).with_tags(vec![NPCTag::Troll, NPCTag::Monster]),
    );
    enemies.push(
        Enemy::new(
            "mimico",
            "un cofre que resulta ser una criatura mimética",
            "mazmorra",
            3,
            3,
            5,
            120,
        ).with_loot(vec!["pocion_mayor", "llave"]).with_count(1).with_tags(vec![NPCTag::Monster]),
    );
    enemies.push(
        Enemy::new(
            "hechicero_oscuro",
            "un poderoso hechicero vestido con ropajes oscuros",
            "torre",
            5,
            5,
            7,
            200,
        ).with_loot(vec!["varita", "tunica", "pocion_mayor", "llave_maestra"]).with_count(
            1,
        ).with_tags(vec![NPCTag::Human, NPCTag::Monster]),
    );

    enemies
}

} // verus!
