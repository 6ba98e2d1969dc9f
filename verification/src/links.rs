//! The links to photographs lead to Wikimedia Commons.
//!
//! A search link or a placeholder would be worse than no link: the reader would
//! follow it and find nothing. So every link of the table is a page of a file or
//! of a category of files, and this module proves it, link by link.
use crate::identify::{lemma_links_in_order, links_start, Entry};
use crate::identify_table::{LINKS, PROPS, REFERENCES};
use vstd::prelude::*;

verus! {

/// The first `n` characters of a text are no spaces.
pub open spec fn spaceless(text: Seq<char>, n: int) -> bool
    decreases n,
{
    n <= 0 || (text[n - 1] != ' ' && spaceless(text, n - 1))
}

/// The first `n` characters of two texts are the same.
pub open spec fn agrees(a: Seq<char>, b: Seq<char>, n: int) -> bool
    decreases n,
{
    n <= 0 || (a[n - 1] == b[n - 1] && agrees(a, b, n - 1))
}

/// A text starts with another.
pub open spec fn starts_with(text: Seq<char>, start: Seq<char>) -> bool {
    start.len() <= text.len() && text.take(start.len() as int) == start
}

/// An address is a page of Wikimedia Commons, of one file or of a category of
/// files, and is written without spaces.
pub open spec fn is_commons_page(url: Seq<char>) -> bool {
    &&& starts_with(url, "https://commons.wikimedia.org/wiki/File:"@) || starts_with(
        url,
        "https://commons.wikimedia.org/wiki/Category:"@,
    )
    &&& !url.contains(' ')
}

/// A link can be shown and followed.
pub open spec fn is_link(label: Seq<char>, url: Seq<char>) -> bool {
    label.len() > 0 && is_commons_page(url)
}

proof fn lemma_spaceless(text: Seq<char>, n: int)
    requires
        spaceless(text, n),
    ensures
        forall|i: int| 0 <= i < n ==> (#[trigger] text[i]) != ' ',
    decreases n,
{
    if n > 0 {
        lemma_spaceless(text, n - 1);
    }
}

proof fn lemma_agrees(a: Seq<char>, b: Seq<char>, n: int)
    requires
        agrees(a, b, n),
    ensures
        forall|i: int| 0 <= i < n ==> (#[trigger] a[i]) == b[i],
    decreases n,
{
    if n > 0 {
        lemma_agrees(a, b, n - 1);
    }
}

/// What two recursive checks say of an address makes it a page of Commons.
proof fn lemma_page(url: Seq<char>, start: Seq<char>)
    requires
        start == "https://commons.wikimedia.org/wiki/File:"@ || start
            == "https://commons.wikimedia.org/wiki/Category:"@,
        start.len() <= url.len(),
        agrees(url, start, start.len() as int),
        spaceless(url, url.len() as int),
    ensures
        is_commons_page(url),
{
    lemma_spaceless(url, url.len() as int);
    lemma_agrees(url, start, start.len() as int);
    assert(url.take(start.len() as int) =~= start);
}

proof fn lemma_links_from_0(k: int)
    requires
        0 <= k < 10,
    ensures
        is_link(REFERENCES[k][0]@, REFERENCES[k][1]@),
{
    if k == 0 {
        let label = "BWR reactor pressure vessel, cutaway"@;
        let url = "https://commons.wikimedia.org/wiki/File:Bwr-rpv.svg"@;
        assert(is_link(label, url)) by {
            reveal_strlit("BWR reactor pressure vessel, cutaway");
            reveal_strlit("https://commons.wikimedia.org/wiki/File:Bwr-rpv.svg");
            reveal_strlit("https://commons.wikimedia.org/wiki/File:");
            reveal_with_fuel(agrees, 41);
            reveal_with_fuel(spaceless, 21);
            assert(spaceless(url, 20));
            assert(spaceless(url, 40));
            lemma_page(url, "https://commons.wikimedia.org/wiki/File:"@);
        }
    } else if k == 1 {
        let label = "Reactor vessel heads in a laydown area (PWR, not BWR)"@;
        let url = "https://commons.wikimedia.org/wiki/File:Reactor_Vessel_head.jpg"@;
        assert(is_link(label, url)) by {
            reveal_strlit("Reactor vessel heads in a laydown area (PWR, not BWR)");
            reveal_strlit("https://commons.wikimedia.org/wiki/File:Reactor_Vessel_head.jpg");
            reveal_strlit("https://commons.wikimedia.org/wiki/File:");
            reveal_with_fuel(agrees, 41);
            reveal_with_fuel(spaceless, 21);
            assert(spaceless(url, 20));
            assert(spaceless(url, 40));
            assert(spaceless(url, 60));
            lemma_page(url, "https://commons.wikimedia.org/wiki/File:"@);
        }
    } else if k == 2 {
        let label = "More reactor pressure vessels"@;
        let url = "https://commons.wikimedia.org/wiki/Category:Reactor_pressure_vessel"@;
        assert(is_link(label, url)) by {
            reveal_strlit("More reactor pressure vessels");
            reveal_strlit("https://commons.wikimedia.org/wiki/Category:Reactor_pressure_vessel");
            reveal_strlit("https://commons.wikimedia.org/wiki/Category:");
            reveal_with_fuel(agrees, 45);
            reveal_with_fuel(spaceless, 21);
            assert(spaceless(url, 20));
            assert(spaceless(url, 40));
            assert(spaceless(url, 60));
            lemma_page(url, "https://commons.wikimedia.org/wiki/Category:"@);
        }
    } else if k == 3 {
        let label = "Racked fuel in a BWR pool — Caorso"@;
        let url = "https://commons.wikimedia.org/wiki/File:Caorso_fuel_pool.jpg"@;
        assert(is_link(label, url)) by {
            reveal_strlit("Racked fuel in a BWR pool — Caorso");
            reveal_strlit("https://commons.wikimedia.org/wiki/File:Caorso_fuel_pool.jpg");
            reveal_strlit("https://commons.wikimedia.org/wiki/File:");
            reveal_with_fuel(agrees, 41);
            reveal_with_fuel(spaceless, 21);
            assert(spaceless(url, 20));
            assert(spaceless(url, 40));
            lemma_page(url, "https://commons.wikimedia.org/wiki/File:"@);
        }
    } else if k == 4 {
        let label = "More spent fuel pools"@;
        let url = "https://commons.wikimedia.org/wiki/Category:Spent_nuclear_fuel_ponds"@;
        assert(is_link(label, url)) by {
            reveal_strlit("More spent fuel pools");
            reveal_strlit("https://commons.wikimedia.org/wiki/Category:Spent_nuclear_fuel_ponds");
            reveal_strlit("https://commons.wikimedia.org/wiki/Category:");
            reveal_with_fuel(agrees, 45);
            reveal_with_fuel(spaceless, 21);
            assert(spaceless(url, 20));
            assert(spaceless(url, 40));
            assert(spaceless(url, 60));
            lemma_page(url, "https://commons.wikimedia.org/wiki/Category:"@);
        }
    } else if k == 5 {
        let label = "Dry cask storage, NRC overview photo"@;
        let url = "https://commons.wikimedia.org/wiki/File:Spent_Fuel_Dry_Cask_Storage_Overview_r3_(25533939854).jpg"@;
        assert(is_link(label, url)) by {
            reveal_strlit("Dry cask storage, NRC overview photo");
            reveal_strlit("https://commons.wikimedia.org/wiki/File:Spent_Fuel_Dry_Cask_Storage_Overview_r3_(25533939854).jpg");
            reveal_strlit("https://commons.wikimedia.org/wiki/File:");
            reveal_with_fuel(agrees, 41);
            reveal_with_fuel(spaceless, 21);
            assert(spaceless(url, 20));
            assert(spaceless(url, 40));
            assert(spaceless(url, 60));
            assert(spaceless(url, 80));
            lemma_page(url, "https://commons.wikimedia.org/wiki/File:"@);
        }
    } else if k == 6 {
        let label = "ISFSI pads — casks on open hardstand"@;
        let url = "https://commons.wikimedia.org/wiki/Category:Independent_Spent_Fuel_Storage_Installations"@;
        assert(is_link(label, url)) by {
            reveal_strlit("ISFSI pads — casks on open hardstand");
            reveal_strlit("https://commons.wikimedia.org/wiki/Category:Independent_Spent_Fuel_Storage_Installations");
            reveal_strlit("https://commons.wikimedia.org/wiki/Category:");
            reveal_with_fuel(agrees, 45);
            reveal_with_fuel(spaceless, 21);
            assert(spaceless(url, 20));
            assert(spaceless(url, 40));
            assert(spaceless(url, 60));
            assert(spaceless(url, 80));
            lemma_page(url, "https://commons.wikimedia.org/wiki/Category:"@);
        }
    } else if k == 7 {
        let label = "CASTOR casks"@;
        let url = "https://commons.wikimedia.org/wiki/Category:Castor_containers"@;
        assert(is_link(label, url)) by {
            reveal_strlit("CASTOR casks");
            reveal_strlit("https://commons.wikimedia.org/wiki/Category:Castor_containers");
            reveal_strlit("https://commons.wikimedia.org/wiki/Category:");
            reveal_with_fuel(agrees, 45);
            reveal_with_fuel(spaceless, 21);
            assert(spaceless(url, 20));
            assert(spaceless(url, 40));
            assert(spaceless(url, 60));
            lemma_page(url, "https://commons.wikimedia.org/wiki/Category:"@);
        }
    } else if k == 8 {
        let label = "Condensate storage tank at Shippingport, captioned (HAER survey)"@;
        let url = "https://commons.wikimedia.org/wiki/File:VIEW_FROM_NORTHWEST_OF_CONDENSATE_STORAGE_TANK_(LEFT),_PRIMARY_WATER_STORAGE_TANK_(CENTER),_CANAL_WATER_STORAGE_TANK_(RIGHT)_(LOCATIONS_E,F,D)_-_Shippingport_Atomic_Power_Station,_HAER_PA,4-SHIP,1-8.tif"@;
        assert(is_link(label, url)) by {
            reveal_strlit("Condensate storage tank at Shippingport, captioned (HAER survey)");
            reveal_strlit("https://commons.wikimedia.org/wiki/File:VIEW_FROM_NORTHWEST_OF_CONDENSATE_STORAGE_TANK_(LEFT),_PRIMARY_WATER_STORAGE_TANK_(CENTER),_CANAL_WATER_STORAGE_TANK_(RIGHT)_(LOCATIONS_E,F,D)_-_Shippingport_Atomic_Power_Station,_HAER_PA,4-SHIP,1-8.tif");
            reveal_strlit("https://commons.wikimedia.org/wiki/File:");
            reveal_with_fuel(agrees, 41);
            reveal_with_fuel(spaceless, 21);
            assert(spaceless(url, 20));
            assert(spaceless(url, 40));
            assert(spaceless(url, 60));
            assert(spaceless(url, 80));
            assert(spaceless(url, 100));
            assert(spaceless(url, 120));
            assert(spaceless(url, 140));
            assert(spaceless(url, 160));
            assert(spaceless(url, 180));
            assert(spaceless(url, 200));
            assert(spaceless(url, 220));
            assert(spaceless(url, 240));
            lemma_page(url, "https://commons.wikimedia.org/wiki/File:"@);
        }
    } else {
        let label = "Bolted and welded storage tanks"@;
        let url = "https://commons.wikimedia.org/wiki/Category:Storage_tanks"@;
        assert(is_link(label, url)) by {
            reveal_strlit("Bolted and welded storage tanks");
            reveal_strlit("https://commons.wikimedia.org/wiki/Category:Storage_tanks");
            reveal_strlit("https://commons.wikimedia.org/wiki/Category:");
            reveal_with_fuel(agrees, 45);
            reveal_with_fuel(spaceless, 21);
            assert(spaceless(url, 20));
            assert(spaceless(url, 40));
            lemma_page(url, "https://commons.wikimedia.org/wiki/Category:"@);
        }
    }
}

proof fn lemma_links_from_10(k: int)
    requires
        10 <= k < 20,
    ensures
        is_link(REFERENCES[k][0]@, REFERENCES[k][1]@),
{
    if k == 10 {
        let label = "What an ABWR actually looks like — Toshiba unit"@;
        let url = "https://commons.wikimedia.org/wiki/File:ABWR_Toshiba_1.jpg"@;
        assert(is_link(label, url)) by {
            reveal_strlit("What an ABWR actually looks like — Toshiba unit");
            reveal_strlit("https://commons.wikimedia.org/wiki/File:ABWR_Toshiba_1.jpg");
            reveal_strlit("https://commons.wikimedia.org/wiki/File:");
            reveal_with_fuel(agrees, 41);
            reveal_with_fuel(spaceless, 21);
            assert(spaceless(url, 20));
            assert(spaceless(url, 40));
            lemma_page(url, "https://commons.wikimedia.org/wiki/File:"@);
        }
    } else if k == 11 {
        let label = "ABWR cross section — note the flat top slab, no dome"@;
        let url = "https://commons.wikimedia.org/wiki/File:UK_ABWR_cross_section.png"@;
        assert(is_link(label, url)) by {
            reveal_strlit("ABWR cross section — note the flat top slab, no dome");
            reveal_strlit("https://commons.wikimedia.org/wiki/File:UK_ABWR_cross_section.png");
            reveal_strlit("https://commons.wikimedia.org/wiki/File:");
            reveal_with_fuel(agrees, 41);
            reveal_with_fuel(spaceless, 21);
            assert(spaceless(url, 20));
            assert(spaceless(url, 40));
            assert(spaceless(url, 60));
            lemma_page(url, "https://commons.wikimedia.org/wiki/File:"@);
        }
    } else if k == 12 {
        let label = "Kashiwazaki-Kariwa, the largest ABWR site"@;
        let url = "https://commons.wikimedia.org/wiki/File:Kashiwazaki-Kariwa_Nuclear_Power_Plant_14-Aug-2019.jpg"@;
        assert(is_link(label, url)) by {
            reveal_strlit("Kashiwazaki-Kariwa, the largest ABWR site");
            reveal_strlit("https://commons.wikimedia.org/wiki/File:Kashiwazaki-Kariwa_Nuclear_Power_Plant_14-Aug-2019.jpg");
            reveal_strlit("https://commons.wikimedia.org/wiki/File:");
            reveal_with_fuel(agrees, 41);
            reveal_with_fuel(spaceless, 21);
            assert(spaceless(url, 20));
            assert(spaceless(url, 40));
            assert(spaceless(url, 60));
            assert(spaceless(url, 80));
            lemma_page(url, "https://commons.wikimedia.org/wiki/File:"@);
        }
    } else if k == 13 {
        let label = "BWR Mark I drywell — the only bulb-shaped BWR containment"@;
        let url = "https://commons.wikimedia.org/wiki/File:BWR_Mark_I_Containment,_diagram.png"@;
        assert(is_link(label, url)) by {
            reveal_strlit("BWR Mark I drywell — the only bulb-shaped BWR containment");
            reveal_strlit("https://commons.wikimedia.org/wiki/File:BWR_Mark_I_Containment,_diagram.png");
            reveal_strlit("https://commons.wikimedia.org/wiki/File:");
            reveal_with_fuel(agrees, 41);
            reveal_with_fuel(spaceless, 21);
            assert(spaceless(url, 20));
            assert(spaceless(url, 40));
            assert(spaceless(url, 60));
            lemma_page(url, "https://commons.wikimedia.org/wiki/File:"@);
        }
    } else if k == 14 {
        let label = "Gas holders — what the shape actually reads as"@;
        let url = "https://commons.wikimedia.org/wiki/Category:Gasometers"@;
        assert(is_link(label, url)) by {
            reveal_strlit("Gas holders — what the shape actually reads as");
            reveal_strlit("https://commons.wikimedia.org/wiki/Category:Gasometers");
            reveal_strlit("https://commons.wikimedia.org/wiki/Category:");
            reveal_with_fuel(agrees, 45);
            reveal_with_fuel(spaceless, 21);
            assert(spaceless(url, 20));
            assert(spaceless(url, 40));
            lemma_page(url, "https://commons.wikimedia.org/wiki/Category:"@);
        }
    } else if k == 15 {
        let label = "What an ABWR actually looks like — Toshiba unit"@;
        let url = "https://commons.wikimedia.org/wiki/File:ABWR_Toshiba_1.jpg"@;
        assert(is_link(label, url)) by {
            reveal_strlit("What an ABWR actually looks like — Toshiba unit");
            reveal_strlit("https://commons.wikimedia.org/wiki/File:ABWR_Toshiba_1.jpg");
            reveal_strlit("https://commons.wikimedia.org/wiki/File:");
            reveal_with_fuel(agrees, 41);
            reveal_with_fuel(spaceless, 21);
            assert(spaceless(url, 20));
            assert(spaceless(url, 40));
            lemma_page(url, "https://commons.wikimedia.org/wiki/File:"@);
        }
    } else if k == 16 {
        let label = "Gas holders — what the shape actually reads as"@;
        let url = "https://commons.wikimedia.org/wiki/Category:Gasometers"@;
        assert(is_link(label, url)) by {
            reveal_strlit("Gas holders — what the shape actually reads as");
            reveal_strlit("https://commons.wikimedia.org/wiki/Category:Gasometers");
            reveal_strlit("https://commons.wikimedia.org/wiki/Category:");
            reveal_with_fuel(agrees, 45);
            reveal_with_fuel(spaceless, 21);
            assert(spaceless(url, 20));
            assert(spaceless(url, 40));
            lemma_page(url, "https://commons.wikimedia.org/wiki/Category:"@);
        }
    } else if k == 17 {
        let label = "Shell-and-tube heat exchangers"@;
        let url = "https://commons.wikimedia.org/wiki/Category:Heat_exchangers"@;
        assert(is_link(label, url)) by {
            reveal_strlit("Shell-and-tube heat exchangers");
            reveal_strlit("https://commons.wikimedia.org/wiki/Category:Heat_exchangers");
            reveal_strlit("https://commons.wikimedia.org/wiki/Category:");
            reveal_with_fuel(agrees, 45);
            reveal_with_fuel(spaceless, 21);
            assert(spaceless(url, 20));
            assert(spaceless(url, 40));
            lemma_page(url, "https://commons.wikimedia.org/wiki/Category:"@);
        }
    } else if k == 18 {
        let label = "Bulk storage tanks"@;
        let url = "https://commons.wikimedia.org/wiki/Category:Storage_tanks"@;
        assert(is_link(label, url)) by {
            reveal_strlit("Bulk storage tanks");
            reveal_strlit("https://commons.wikimedia.org/wiki/Category:Storage_tanks");
            reveal_strlit("https://commons.wikimedia.org/wiki/Category:");
            reveal_with_fuel(agrees, 45);
            reveal_with_fuel(spaceless, 21);
            assert(spaceless(url, 20));
            assert(spaceless(url, 40));
            lemma_page(url, "https://commons.wikimedia.org/wiki/Category:"@);
        }
    } else {
        let label = "Industrial electric motors"@;
        let url = "https://commons.wikimedia.org/wiki/Category:Electric_motors"@;
        assert(is_link(label, url)) by {
            reveal_strlit("Industrial electric motors");
            reveal_strlit("https://commons.wikimedia.org/wiki/Category:Electric_motors");
            reveal_strlit("https://commons.wikimedia.org/wiki/Category:");
            reveal_with_fuel(agrees, 45);
            reveal_with_fuel(spaceless, 21);
            assert(spaceless(url, 20));
            assert(spaceless(url, 40));
            lemma_page(url, "https://commons.wikimedia.org/wiki/Category:"@);
        }
    }
}

proof fn lemma_links_from_20(k: int)
    requires
        20 <= k < 30,
    ensures
        is_link(REFERENCES[k][0]@, REFERENCES[k][1]@),
{
    if k == 20 {
        let label = "Dresden BWR control room — the era the art is drawn from"@;
        let url = "https://commons.wikimedia.org/wiki/File:Control_room_of_Commonwealth_Edison_Company%27s_Dresden_nuclear_power_station.jpg"@;
        assert(is_link(label, url)) by {
            reveal_strlit("Dresden BWR control room — the era the art is drawn from");
            reveal_strlit("https://commons.wikimedia.org/wiki/File:Control_room_of_Commonwealth_Edison_Company%27s_Dresden_nuclear_power_station.jpg");
            reveal_strlit("https://commons.wikimedia.org/wiki/File:");
            reveal_with_fuel(agrees, 41);
            reveal_with_fuel(spaceless, 21);
            assert(spaceless(url, 20));
            assert(spaceless(url, 40));
            assert(spaceless(url, 60));
            assert(spaceless(url, 80));
            assert(spaceless(url, 100));
            assert(spaceless(url, 120));
            lemma_page(url, "https://commons.wikimedia.org/wiki/File:"@);
        }
    } else if k == 21 {
        let label = "An ABWR control room is digital — see the cross section"@;
        let url = "https://commons.wikimedia.org/wiki/File:UK_ABWR_cross_section.png"@;
        assert(is_link(label, url)) by {
            reveal_strlit("An ABWR control room is digital — see the cross section");
            reveal_strlit("https://commons.wikimedia.org/wiki/File:UK_ABWR_cross_section.png");
            reveal_strlit("https://commons.wikimedia.org/wiki/File:");
            reveal_with_fuel(agrees, 41);
            reveal_with_fuel(spaceless, 21);
            assert(spaceless(url, 20));
            assert(spaceless(url, 40));
            assert(spaceless(url, 60));
            lemma_page(url, "https://commons.wikimedia.org/wiki/File:"@);
        }
    } else if k == 22 {
        let label = "More nuclear control rooms"@;
        let url = "https://commons.wikimedia.org/wiki/Category:Nuclear_power_plant_control_rooms"@;
        assert(is_link(label, url)) by {
            reveal_strlit("More nuclear control rooms");
            reveal_strlit("https://commons.wikimedia.org/wiki/Category:Nuclear_power_plant_control_rooms");
            reveal_strlit("https://commons.wikimedia.org/wiki/Category:");
            reveal_with_fuel(agrees, 45);
            reveal_with_fuel(spaceless, 21);
            assert(spaceless(url, 20));
            assert(spaceless(url, 40));
            assert(spaceless(url, 60));
            lemma_page(url, "https://commons.wikimedia.org/wiki/Category:"@);
        }
    } else if k == 23 {
        let label = "Switchgear and control cubicles"@;
        let url = "https://commons.wikimedia.org/wiki/Category:Switchgear"@;
        assert(is_link(label, url)) by {
            reveal_strlit("Switchgear and control cubicles");
            reveal_strlit("https://commons.wikimedia.org/wiki/Category:Switchgear");
            reveal_strlit("https://commons.wikimedia.org/wiki/Category:");
            reveal_with_fuel(agrees, 45);
            reveal_with_fuel(spaceless, 21);
            assert(spaceless(url, 20));
            assert(spaceless(url, 40));
            lemma_page(url, "https://commons.wikimedia.org/wiki/Category:"@);
        }
    } else if k == 24 {
        let label = "Switchgear cubicles and MCC line-ups"@;
        let url = "https://commons.wikimedia.org/wiki/Category:Switchgear"@;
        assert(is_link(label, url)) by {
            reveal_strlit("Switchgear cubicles and MCC line-ups");
            reveal_strlit("https://commons.wikimedia.org/wiki/Category:Switchgear");
            reveal_strlit("https://commons.wikimedia.org/wiki/Category:");
            reveal_with_fuel(agrees, 45);
            reveal_with_fuel(spaceless, 21);
            assert(spaceless(url, 20));
            assert(spaceless(url, 40));
            lemma_page(url, "https://commons.wikimedia.org/wiki/Category:"@);
        }
    } else if k == 25 {
        let label = "Local control and switch panels"@;
        let url = "https://commons.wikimedia.org/wiki/Category:Switchgear"@;
        assert(is_link(label, url)) by {
            reveal_strlit("Local control and switch panels");
            reveal_strlit("https://commons.wikimedia.org/wiki/Category:Switchgear");
            reveal_strlit("https://commons.wikimedia.org/wiki/Category:");
            reveal_with_fuel(agrees, 45);
            reveal_with_fuel(spaceless, 21);
            assert(spaceless(url, 20));
            assert(spaceless(url, 40));
            lemma_page(url, "https://commons.wikimedia.org/wiki/Category:"@);
        }
    } else if k == 26 {
        let label = "Distribution boards and relay cabinets"@;
        let url = "https://commons.wikimedia.org/wiki/Category:Switchgear"@;
        assert(is_link(label, url)) by {
            reveal_strlit("Distribution boards and relay cabinets");
            reveal_strlit("https://commons.wikimedia.org/wiki/Category:Switchgear");
            reveal_strlit("https://commons.wikimedia.org/wiki/Category:");
            reveal_with_fuel(agrees, 45);
            reveal_with_fuel(spaceless, 21);
            assert(spaceless(url, 20));
            assert(spaceless(url, 40));
            lemma_page(url, "https://commons.wikimedia.org/wiki/Category:"@);
        }
    } else if k == 27 {
        let label = "A BWR has one circuit — compare the ABWR cross section"@;
        let url = "https://commons.wikimedia.org/wiki/File:UK_ABWR_cross_section.png"@;
        assert(is_link(label, url)) by {
            reveal_strlit("A BWR has one circuit — compare the ABWR cross section");
            reveal_strlit("https://commons.wikimedia.org/wiki/File:UK_ABWR_cross_section.png");
            reveal_strlit("https://commons.wikimedia.org/wiki/File:");
            reveal_with_fuel(agrees, 41);
            reveal_with_fuel(spaceless, 21);
            assert(spaceless(url, 20));
            assert(spaceless(url, 40));
            assert(spaceless(url, 60));
            lemma_page(url, "https://commons.wikimedia.org/wiki/File:"@);
        }
    } else if k == 28 {
        let label = "Field junction boxes"@;
        let url = "https://commons.wikimedia.org/wiki/Category:Junction_boxes"@;
        assert(is_link(label, url)) by {
            reveal_strlit("Field junction boxes");
            reveal_strlit("https://commons.wikimedia.org/wiki/Category:Junction_boxes");
            reveal_strlit("https://commons.wikimedia.org/wiki/Category:");
            reveal_with_fuel(agrees, 45);
            reveal_with_fuel(spaceless, 21);
            assert(spaceless(url, 20));
            assert(spaceless(url, 40));
            lemma_page(url, "https://commons.wikimedia.org/wiki/Category:"@);
        }
    } else {
        let label = "Rigid conduit and cable clamps"@;
        let url = "https://commons.wikimedia.org/wiki/Category:Electrical_conduit"@;
        assert(is_link(label, url)) by {
            reveal_strlit("Rigid conduit and cable clamps");
            reveal_strlit("https://commons.wikimedia.org/wiki/Category:Electrical_conduit");
            reveal_strlit("https://commons.wikimedia.org/wiki/Category:");
            reveal_with_fuel(agrees, 45);
            reveal_with_fuel(spaceless, 21);
            assert(spaceless(url, 20));
            assert(spaceless(url, 40));
            assert(spaceless(url, 60));
            lemma_page(url, "https://commons.wikimedia.org/wiki/Category:"@);
        }
    }
}

proof fn lemma_links_from_30(k: int)
    requires
        30 <= k < 40,
    ensures
        is_link(REFERENCES[k][0]@, REFERENCES[k][1]@),
{
    if k == 30 {
        let label = "Cable tray — how a real plant bulk-routes cable"@;
        let url = "https://commons.wikimedia.org/wiki/Category:Cable_trays"@;
        assert(is_link(label, url)) by {
            reveal_strlit("Cable tray — how a real plant bulk-routes cable");
            reveal_strlit("https://commons.wikimedia.org/wiki/Category:Cable_trays");
            reveal_strlit("https://commons.wikimedia.org/wiki/Category:");
            reveal_with_fuel(agrees, 45);
            reveal_with_fuel(spaceless, 21);
            assert(spaceless(url, 20));
            assert(spaceless(url, 40));
            lemma_page(url, "https://commons.wikimedia.org/wiki/Category:"@);
        }
    } else if k == 31 {
        let label = "Operator consoles in real control rooms"@;
        let url = "https://commons.wikimedia.org/wiki/Category:Nuclear_power_plant_control_rooms"@;
        assert(is_link(label, url)) by {
            reveal_strlit("Operator consoles in real control rooms");
            reveal_strlit("https://commons.wikimedia.org/wiki/Category:Nuclear_power_plant_control_rooms");
            reveal_strlit("https://commons.wikimedia.org/wiki/Category:");
            reveal_with_fuel(agrees, 45);
            reveal_with_fuel(spaceless, 21);
            assert(spaceless(url, 20));
            assert(spaceless(url, 40));
            assert(spaceless(url, 60));
            lemma_page(url, "https://commons.wikimedia.org/wiki/Category:"@);
        }
    } else if k == 32 {
        let label = "Dresden BWR control room, same vintage"@;
        let url = "https://commons.wikimedia.org/wiki/File:Control_room_of_Commonwealth_Edison_Company%27s_Dresden_nuclear_power_station.jpg"@;
        assert(is_link(label, url)) by {
            reveal_strlit("Dresden BWR control room, same vintage");
            reveal_strlit("https://commons.wikimedia.org/wiki/File:Control_room_of_Commonwealth_Edison_Company%27s_Dresden_nuclear_power_station.jpg");
            reveal_strlit("https://commons.wikimedia.org/wiki/File:");
            reveal_with_fuel(agrees, 41);
            reveal_with_fuel(spaceless, 21);
            assert(spaceless(url, 20));
            assert(spaceless(url, 40));
            assert(spaceless(url, 60));
            assert(spaceless(url, 80));
            assert(spaceless(url, 100));
            assert(spaceless(url, 120));
            lemma_page(url, "https://commons.wikimedia.org/wiki/File:"@);
        }
    } else if k == 33 {
        let label = "Domestic gas meters — compare the register"@;
        let url = "https://commons.wikimedia.org/wiki/Category:Gas_meters"@;
        assert(is_link(label, url)) by {
            reveal_strlit("Domestic gas meters — compare the register");
            reveal_strlit("https://commons.wikimedia.org/wiki/Category:Gas_meters");
            reveal_strlit("https://commons.wikimedia.org/wiki/Category:");
            reveal_with_fuel(agrees, 45);
            reveal_with_fuel(spaceless, 21);
            assert(spaceless(url, 20));
            assert(spaceless(url, 40));
            lemma_page(url, "https://commons.wikimedia.org/wiki/Category:"@);
        }
    } else if k == 34 {
        let label = "Bourdon pressure gauges"@;
        let url = "https://commons.wikimedia.org/wiki/Category:Pressure_gauges"@;
        assert(is_link(label, url)) by {
            reveal_strlit("Bourdon pressure gauges");
            reveal_strlit("https://commons.wikimedia.org/wiki/Category:Pressure_gauges");
            reveal_strlit("https://commons.wikimedia.org/wiki/Category:");
            reveal_with_fuel(agrees, 45);
            reveal_with_fuel(spaceless, 21);
            assert(spaceless(url, 20));
            assert(spaceless(url, 40));
            lemma_page(url, "https://commons.wikimedia.org/wiki/Category:"@);
        }
    } else if k == 35 {
        let label = "High-voltage circuit breakers"@;
        let url = "https://commons.wikimedia.org/wiki/Category:Circuit_breakers"@;
        assert(is_link(label, url)) by {
            reveal_strlit("High-voltage circuit breakers");
            reveal_strlit("https://commons.wikimedia.org/wiki/Category:Circuit_breakers");
            reveal_strlit("https://commons.wikimedia.org/wiki/Category:");
            reveal_with_fuel(agrees, 45);
            reveal_with_fuel(spaceless, 21);
            assert(spaceless(url, 20));
            assert(spaceless(url, 40));
            lemma_page(url, "https://commons.wikimedia.org/wiki/Category:"@);
        }
    } else if k == 36 {
        let label = "Current transformers"@;
        let url = "https://commons.wikimedia.org/wiki/Category:Current_transformers"@;
        assert(is_link(label, url)) by {
            reveal_strlit("Current transformers");
            reveal_strlit("https://commons.wikimedia.org/wiki/Category:Current_transformers");
            reveal_strlit("https://commons.wikimedia.org/wiki/Category:");
            reveal_with_fuel(agrees, 45);
            reveal_with_fuel(spaceless, 21);
            assert(spaceless(url, 20));
            assert(spaceless(url, 40));
            assert(spaceless(url, 60));
            lemma_page(url, "https://commons.wikimedia.org/wiki/Category:"@);
        }
    } else if k == 37 {
        let label = "High-voltage transformers with radiator banks"@;
        let url = "https://commons.wikimedia.org/wiki/Category:High-voltage_transformers"@;
        assert(is_link(label, url)) by {
            reveal_strlit("High-voltage transformers with radiator banks");
            reveal_strlit("https://commons.wikimedia.org/wiki/Category:High-voltage_transformers");
            reveal_strlit("https://commons.wikimedia.org/wiki/Category:");
            reveal_with_fuel(agrees, 45);
            reveal_with_fuel(spaceless, 21);
            assert(spaceless(url, 20));
            assert(spaceless(url, 40));
            assert(spaceless(url, 60));
            lemma_page(url, "https://commons.wikimedia.org/wiki/Category:"@);
        }
    } else if k == 38 {
        let label = "Lattice switchyard structures"@;
        let url = "https://commons.wikimedia.org/wiki/Category:Transmission_towers"@;
        assert(is_link(label, url)) by {
            reveal_strlit("Lattice switchyard structures");
            reveal_strlit("https://commons.wikimedia.org/wiki/Category:Transmission_towers");
            reveal_strlit("https://commons.wikimedia.org/wiki/Category:");
            reveal_with_fuel(agrees, 45);
            reveal_with_fuel(spaceless, 21);
            assert(spaceless(url, 20));
            assert(spaceless(url, 40));
            assert(spaceless(url, 60));
            lemma_page(url, "https://commons.wikimedia.org/wiki/Category:"@);
        }
    } else {
        let label = "Busbars and overhead jumpers"@;
        let url = "https://commons.wikimedia.org/wiki/Category:Busbars"@;
        assert(is_link(label, url)) by {
            reveal_strlit("Busbars and overhead jumpers");
            reveal_strlit("https://commons.wikimedia.org/wiki/Category:Busbars");
            reveal_strlit("https://commons.wikimedia.org/wiki/Category:");
            reveal_with_fuel(agrees, 45);
            reveal_with_fuel(spaceless, 21);
            assert(spaceless(url, 20));
            assert(spaceless(url, 40));
            lemma_page(url, "https://commons.wikimedia.org/wiki/Category:"@);
        }
    }
}

proof fn lemma_links_from_40(k: int)
    requires
        40 <= k < 50,
    ensures
        is_link(REFERENCES[k][0]@, REFERENCES[k][1]@),
{
    if k == 40 {
        let label = "Marshalling kiosks and switchgear cabinets"@;
        let url = "https://commons.wikimedia.org/wiki/Category:Switchgear"@;
        assert(is_link(label, url)) by {
            reveal_strlit("Marshalling kiosks and switchgear cabinets");
            reveal_strlit("https://commons.wikimedia.org/wiki/Category:Switchgear");
            reveal_strlit("https://commons.wikimedia.org/wiki/Category:");
            reveal_with_fuel(agrees, 45);
            reveal_with_fuel(spaceless, 21);
            assert(spaceless(url, 20));
            assert(spaceless(url, 40));
            lemma_page(url, "https://commons.wikimedia.org/wiki/Category:"@);
        }
    } else if k == 41 {
        let label = "Transmission structures"@;
        let url = "https://commons.wikimedia.org/wiki/Category:Transmission_towers"@;
        assert(is_link(label, url)) by {
            reveal_strlit("Transmission structures");
            reveal_strlit("https://commons.wikimedia.org/wiki/Category:Transmission_towers");
            reveal_strlit("https://commons.wikimedia.org/wiki/Category:");
            reveal_with_fuel(agrees, 45);
            reveal_with_fuel(spaceless, 21);
            assert(spaceless(url, 20));
            assert(spaceless(url, 40));
            assert(spaceless(url, 60));
            lemma_page(url, "https://commons.wikimedia.org/wiki/Category:"@);
        }
    } else if k == 42 {
        let label = "Rail-mounted gantry cranes"@;
        let url = "https://commons.wikimedia.org/wiki/Category:Gantry_cranes"@;
        assert(is_link(label, url)) by {
            reveal_strlit("Rail-mounted gantry cranes");
            reveal_strlit("https://commons.wikimedia.org/wiki/Category:Gantry_cranes");
            reveal_strlit("https://commons.wikimedia.org/wiki/Category:");
            reveal_with_fuel(agrees, 45);
            reveal_with_fuel(spaceless, 21);
            assert(spaceless(url, 20));
            assert(spaceless(url, 40));
            lemma_page(url, "https://commons.wikimedia.org/wiki/Category:"@);
        }
    } else if k == 43 {
        let label = "Fire sprinkler heads"@;
        let url = "https://commons.wikimedia.org/wiki/Category:Fire_sprinklers"@;
        assert(is_link(label, url)) by {
            reveal_strlit("Fire sprinkler heads");
            reveal_strlit("https://commons.wikimedia.org/wiki/Category:Fire_sprinklers");
            reveal_strlit("https://commons.wikimedia.org/wiki/Category:");
            reveal_with_fuel(agrees, 45);
            reveal_with_fuel(spaceless, 21);
            assert(spaceless(url, 20));
            assert(spaceless(url, 40));
            lemma_page(url, "https://commons.wikimedia.org/wiki/Category:"@);
        }
    } else if k == 44 {
        let label = "Sheet-metal ductwork"@;
        let url = "https://commons.wikimedia.org/wiki/Category:Ductwork"@;
        assert(is_link(label, url)) by {
            reveal_strlit("Sheet-metal ductwork");
            reveal_strlit("https://commons.wikimedia.org/wiki/Category:Ductwork");
            reveal_strlit("https://commons.wikimedia.org/wiki/Category:");
            reveal_with_fuel(agrees, 45);
            reveal_with_fuel(spaceless, 21);
            assert(spaceless(url, 20));
            assert(spaceless(url, 40));
            lemma_page(url, "https://commons.wikimedia.org/wiki/Category:"@);
        }
    } else if k == 45 {
        let label = "Industrial process piping"@;
        let url = "https://commons.wikimedia.org/wiki/Category:Piping"@;
        assert(is_link(label, url)) by {
            reveal_strlit("Industrial process piping");
            reveal_strlit("https://commons.wikimedia.org/wiki/Category:Piping");
            reveal_strlit("https://commons.wikimedia.org/wiki/Category:");
            reveal_with_fuel(agrees, 45);
            reveal_with_fuel(spaceless, 21);
            assert(spaceless(url, 20));
            assert(spaceless(url, 40));
            lemma_page(url, "https://commons.wikimedia.org/wiki/Category:"@);
        }
    } else if k == 46 {
        let label = "Where main steam lines really run — ABWR cross section"@;
        let url = "https://commons.wikimedia.org/wiki/File:UK_ABWR_cross_section.png"@;
        assert(is_link(label, url)) by {
            reveal_strlit("Where main steam lines really run — ABWR cross section");
            reveal_strlit("https://commons.wikimedia.org/wiki/File:UK_ABWR_cross_section.png");
            reveal_strlit("https://commons.wikimedia.org/wiki/File:");
            reveal_with_fuel(agrees, 41);
            reveal_with_fuel(spaceless, 21);
            assert(spaceless(url, 20));
            assert(spaceless(url, 40));
            assert(spaceless(url, 60));
            lemma_page(url, "https://commons.wikimedia.org/wiki/File:"@);
        }
    } else if k == 47 {
        let label = "Caorso BWR spent fuel pool"@;
        let url = "https://commons.wikimedia.org/wiki/File:Caorso_fuel_pool.jpg"@;
        assert(is_link(label, url)) by {
            reveal_strlit("Caorso BWR spent fuel pool");
            reveal_strlit("https://commons.wikimedia.org/wiki/File:Caorso_fuel_pool.jpg");
            reveal_strlit("https://commons.wikimedia.org/wiki/File:");
            reveal_with_fuel(agrees, 41);
            reveal_with_fuel(spaceless, 21);
            assert(spaceless(url, 20));
            assert(spaceless(url, 40));
            lemma_page(url, "https://commons.wikimedia.org/wiki/File:"@);
        }
    } else if k == 48 {
        let label = "More spent fuel pools"@;
        let url = "https://commons.wikimedia.org/wiki/Category:Spent_nuclear_fuel_ponds"@;
        assert(is_link(label, url)) by {
            reveal_strlit("More spent fuel pools");
            reveal_strlit("https://commons.wikimedia.org/wiki/Category:Spent_nuclear_fuel_ponds");
            reveal_strlit("https://commons.wikimedia.org/wiki/Category:");
            reveal_with_fuel(agrees, 45);
            reveal_with_fuel(spaceless, 21);
            assert(spaceless(url, 20));
            assert(spaceless(url, 40));
            assert(spaceless(url, 60));
            lemma_page(url, "https://commons.wikimedia.org/wiki/Category:"@);
        }
    } else {
        let label = "Kashiwazaki-Kariwa on the coast — once-through, no towers"@;
        let url = "https://commons.wikimedia.org/wiki/File:Kashiwazaki-Kariwa_Nuclear_Power_Plant_14-Aug-2019.jpg"@;
        assert(is_link(label, url)) by {
            reveal_strlit("Kashiwazaki-Kariwa on the coast — once-through, no towers");
            reveal_strlit("https://commons.wikimedia.org/wiki/File:Kashiwazaki-Kariwa_Nuclear_Power_Plant_14-Aug-2019.jpg");
            reveal_strlit("https://commons.wikimedia.org/wiki/File:");
            reveal_with_fuel(agrees, 41);
            reveal_with_fuel(spaceless, 21);
            assert(spaceless(url, 20));
            assert(spaceless(url, 40));
            assert(spaceless(url, 60));
            assert(spaceless(url, 80));
            lemma_page(url, "https://commons.wikimedia.org/wiki/File:"@);
        }
    }
}

/// Every link of the table has a label and leads to a page of Commons.
pub proof fn law_every_link_leads_to_commons(k: int)
    requires
        0 <= k < LINKS,
    ensures
        is_link(REFERENCES[k][0]@, REFERENCES[k][1]@),
{
    if k < 10 {
        lemma_links_from_0(k);
    } else if k < 20 {
        lemma_links_from_10(k);
    } else if k < 30 {
        lemma_links_from_20(k);
    } else if k < 40 {
        lemma_links_from_30(k);
    } else {
        lemma_links_from_40(k);
    }
}

/// So does every link that an identification shows.
pub proof fn law_every_entry_links_to_commons(entry: Entry, k: int, j: int)
    requires
        0 <= k < PROPS,
        entry.reads_as(k),
        0 <= j < entry.refs@.len(),
    ensures
        is_link(entry.refs@[j].label@, entry.refs@[j].url@),
{
    lemma_links_in_order(k);
    assert(entry.refs@[j].label@ == REFERENCES[links_start(k) + j][0]@);
    law_every_link_leads_to_commons(links_start(k) + j);
}

} // verus!
