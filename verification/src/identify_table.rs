//! The identification table.
//!
//! Every entry comes from a survey of the map's props that identified the
//! equipment **by shape and texture, not by name** — no asset in de_nuke is named
//! for any item of rotating machinery, heat-exchange equipment, valve or
//! radiation instrument. Where the survey gave a measurement, it is quoted,
//! because a dimension is the difference between a claim and an assertion.
use crate::identify::Confidence;
use vstd::prelude::*;

verus! {

/// How many props the table names.
pub const PROPS: usize = 33;

/// How many photographs of real equipment the table links to.
pub const LINKS: usize = 50;

/// Pattern, what the geometry depicts, the real plant item it most likely
/// represents, and the measurement or caveat that justifies the call.
///
/// Ordered most specific first; the first match wins. `nuke_silo_001b` stands
/// before `nuke_silo_001` so the larger shell is not caught by the smaller one.
pub const TEXTS: [[&'static str; 4]; 33] = [
    [
        "nuke_reactor_vessel_head",
        "Reactor pressure vessel closure head",
        "RPV head, laid down under water during a refuelling outage",
        "6.6 m studded closure flange with a raised bolted stub, on the fuel pool floor at (-3.6, -26.8, \
         22.8). An ABWR RPV flange is 7.1 m ID, so the scale is close. There is no vessel shell anywhere \
         in the map — narrate it as the head, not the vessel.",
    ],
    [
        "nuke_spent_fuel_racks",
        "Spent fuel storage rack array",
        "SFP storage racks",
        "17.1 x 8.5 m plate array of square cells in two sub-blocks on the pool floor. Cell pitch scales \
         to ~1.7 m against a real BWR pitch of ~15 cm, so it is far too coarse — but the read is \
         unambiguous.",
    ],
    [
        "medium_silo",
        "Vertical dry storage cask",
        "Spent fuel dry cask overpack on an ISFSI pad",
        "8 casks, 5.3 m dia x 7.1 m, on a marked pad with recessed positions for more. Slightly fat \
         against a HI-STORM (3.4 m x 5.9 m), but grid array plus spare marked positions on open hardstand \
         is exactly right. The most convincingly nuclear composition in the map after the fuel racks.",
    ],
    [
        "nuke_silo_002",
        "Bolted-plate vertical water storage tank",
        "Condensate storage tank (CST)",
        "11.2 m dia x 10.1 m, about 970 m3, with stiffener strakes, shell manway, two nozzle stubs and a \
         top guardrail cage. An ABWR CST is ~2,000 m3. Right form, right order of magnitude, right kind \
         of place — the strongest single vessel match in the map.",
    ],
    [
        "nuke_silo_001b",
        "Ovoid steel shell on a cylindrical skirt",
        "Spherical steel containment, or a gas holder",
        "35.2 m across x 41.2 m tall, ribbed meridians, springline platform, lightning finial, apex \
         plinth, four external risers over the crown. An ABWR RCCV is a concrete cylinder with a FLAT TOP \
         SLAB, entirely inside a rectangular reactor building — you never see a dome. This is the map's \
         signature image and its biggest departure from ABWR form.",
    ],
    [
        "nuke_silo_001",
        "Ovoid steel shell, half scale",
        "Second containment shell",
        "About 22 m across x 31 m tall, same family as the large shell. Two containments of unequal size \
         is a configuration no BWR site has. Both shells are single-sided hollow — there is no interior \
         geometry at all.",
    ],
    [
        "nuke_machinery_05",
        "Horizontal cylindrical pressure vessel",
        "Moisture separator reheater, closed feedwater heater or RHR heat exchanger",
        "Dished heads, saddle supports, bolted flanged manway, top nozzle bosses — a textbook process \
         drum. Two ~19 m and two ~12.4 m, about 3 m dia. The best heat-exchanger proxy in the map, but \
         ABWR RHR heat exchangers are vertical and there are only four of these, in the wrong rooms.",
    ],
    [
        "nuke_machinery_01",
        "Domed-top vertical storage tank",
        "Bulk demineralised or raw water storage",
        "Used at two scales: five at 24 m dia x 11 m (~5,000 m3) with a springline handrail in the tank \
         farm, and four at 3.7 m x 5.4 m on a roof. The large ones sit south of the river outside the \
         site fence, so they are scenery — usable in wide shots only.",
    ],
    [
        "nuke_machinery_02",
        "Skid-mounted machine enclosure with acoustic hood",
        "Packaged rotating-machine skid",
        "About 5 x 3 x 10 m on an anchored base frame with lifting lugs and end handrails. Two instances. \
         The hood hides whatever is inside, which makes it a flexible proxy — but nothing identifies what \
         it drives.",
    ],
    [
        "nuke_machinery_03",
        "Horizontal electric motor on a concrete plinth",
        "Motor driver — the only rotating machine in the map",
        "Cylindrical stator, end bell with shaft stub and coupling, terminal box, cooling ribs. One large \
         (~3 m) and one small copy at (7.1, -15.4, 23.0). There are no pumps for it to drive: reactor \
         feed pumps, condensate pumps and RIPs are all absent.",
    ],
    [
        "control_room_displays",
        "Analogue benchboard and vertical instrument panels",
        "1970s-vintage BWR/3-5 main control room",
        "The atlas carries a 6x4 backlit annunciator tile matrix, a strip-chart recorder with a red pen \
         trace, edgewise bargraphs with green/red operating bands, moving-coil indicators and 0/I/II \
         selector switches. Someone drew a real instrument set — but an ABWR MCR is digital, with a wide \
         fixed display panel and flat-panel consoles. Two design generations later. 46 instances in the \
         control room, 5 mimic banks over the pool hall.",
    ],
    [
        "nuke_supercomputer",
        "Louvred equipment cabinet",
        "Logic cabinet — the nearest thing to SSLC",
        "The only logic-cabinet-shaped objects in the map. Unlabelled, and there are two of them where \
         ABWR safety system logic and control has four divisions with 2-out-of-4 voting.",
    ],
    [
        "nuke_electric_panel01",
        "Floor-standing switchgear cubicle",
        "LV switchgear or motor control centre cubicle",
        "Ribbed door with a side lamp stack. Four instances. There is no switchgear room, no MCC line-up, \
         no battery room and no divisional 6.9 kV / 480 V distribution.",
    ],
    [
        "nuke_electric_panel02",
        "Small wall-mounted control panel",
        "Local control station",
        "Two indicator windows and a four-lamp column. Fourteen instances spread from X -64 to +68.",
    ],
    [
        "nuke_industrial_props_001",
        "Electrical kit: MCB distribution board, relay cabinet, pushbutton sub-panel",
        "Distribution and control panels",
        "Carries the legible circuit-directory placard reading 'Coolant Flow Control, Cooling Tank 1 2 3, \
         Core Temperature, Crane Control, Ventilation, PRIMARY COOLANT, SECONDARY COOLANT'. Two separate \
         coolant circuits is PWR vocabulary — a BWR has no secondary coolant, because steam raised in the \
         core goes straight to the turbine. Either avoid this panel on camera or call it out as the map \
         getting it wrong.",
    ],
    [
        "power_outlet_campground",
        "Wall-mounted junction box with rigid conduit and cable clamps",
        "Field wiring junction box",
        "72 instances across X -59 to +89 — the map's field-wiring signature, despite the asset name \
         saying 'outlet'. This is the closest the map gets to real instrument field routing; there are no \
         impulse lines, manifolds or instrument racks anywhere.",
    ],
    [
        "nuke_office_desk_buttons",
        "Desk console keyboard and button array",
        "Operator console input panel",
        "Red, green and teal key blocks. Six instances in the control room.",
    ],
    [
        "nuke_office_desk_monitor",
        "CRT monitor",
        "Operator workstation display",
        "13 boxy CRTs on desks. Consistent with the analogue-era control room, and inconsistent with an \
         ABWR's flat-panel consoles.",
    ],
    [
        "gas_meter",
        "Domestic diaphragm natural-gas meter",
        "Nothing nuclear — a household utility meter",
        "The texture shows a cubic-metre odometer register. Seven instances at (25.2, -9.1, 11.8). Do not \
         point at this as plant instrumentation; it is the kind of detail an informed viewer will catch \
         immediately.",
    ],
    [
        "metal_pipe_002",
        "Pipe run with local gauges printed on the texture",
        "Local pressure gauge and bimetallic thermometer",
        "The atlas carries a compound pressure/vacuum gauge in mbar and in.Hg and a bimetallic \
         thermometer reading 0-40 C, plus bolted flanges, a blind flange, a manway and a bellows \
         expansion joint. Utility ranges, not primary-circuit — but it is the only process \
         instrumentation actually drawn on the pipework.",
    ],
    [
        "nuke_circuit_breaker",
        "Dead-tank SF6 circuit breaker with V-arranged bushings",
        "HV switchyard circuit breaker",
        "8 pedestal-mounted instances in the switchyard. The electrical system is the strongest and most \
         accurate part of the map by a wide margin.",
    ],
    [
        "current_transformer",
        "Pedestal instrument-transformer column",
        "Current transformer (CT)",
        "17 instances in the switchyard, bbox 64 x 15 x 59 m.",
    ],
    [
        "substation_transformer",
        "Oil-filled transformer with radiator bank and HV bushings",
        "Generator step-up or unit auxiliary transformer",
        "Four instances, three in a row at X 45.8 against the building wall with risers into the \
         switchyard bus, each 4.3 x 4.5 x 4.8 m. Reads equally well as GSU plus two unit auxiliary \
         transformers, or as a three-phase bank of single-phase units.",
    ],
    [
        "substation_support",
        "Lattice gantry and bus support insulator column",
        "Switchyard structure",
        "29 instances.",
    ],
    [
        "transformer_wires",
        "Overhead bus and jumpers",
        "Switchyard busbar",
        "36 instances.",
    ],
    [
        "transformer_yard_powerbox",
        "Marshalling kiosk",
        "Switchyard marshalling cubicle",
        "15 instances.",
    ],
    [
        "nuke_power_pole",
        "Transmission pole",
        "Site transmission line",
        "14 poles up to 33.8 m around the site perimeter.",
    ],
    [
        "nuke_cargo_crane",
        "Rail-mounted gantry crane",
        "Heavy-lift or cask-handling crane",
        "About 39 m span, 14.6 m tall, two trolleys, hook block and festoon cabling, outdoors at X -27.7. \
         A good cask crane, but it is not the reactor building crane — there is none over the refuelling \
         floor.",
    ],
    [
        "sprinkler_001",
        "Fire sprinkler head",
        "Building fire suppression",
        "32 instances, part of a complete and genuinely dense building fire system: detectors, alarm \
         beacons, extinguishers and hose reels all exist.",
    ],
    [
        "airduct_hvac|nuke_roof_ac|hr_metal_duct|nuke_ventilation_exhaust",
        "Rectangular sheet-metal duct and rooftop air-handling units",
        "Commercial-building HVAC",
        "364 instances. This is office and industrial HVAC, not nuclear ventilation. It cannot stand in \
         for standby gas treatment, which looks like a shielded filter housing train with charcoal \
         adsorber banks and HEPA housings — absent entirely.",
    ],
    [
        "metal_pipe_00",
        "Modular pipe kit",
        "Process pipework",
        "1,927 pieces. Decorative kit placed to look joined rather than a modelled process system, so \
         runs are geometric adjacency, not a P&ID. The four large-bore risers climbing the big shell and \
         turning over its crown are the nearest thing to main steam lines — but MSLs leave the RPV \
         horizontally into a steam tunnel, never over the containment roof.",
    ],
    [
        "nuke_water",
        "Water surface at Y -20.6",
        "Spent fuel pool",
        "About 29 x 15 m with a floor at Y -27.5, so roughly 6.9 m deep. A real BWR SFP is 11-12 m. \
         Shallow, but it reads correctly on camera.",
    ],
    [
        "hr_river_water",
        "River surface at Y -12.2",
        "Ultimate heat sink — once-through cooling water source",
        "294 m wide across the whole site. Once-through is entirely plausible; Kashiwazaki-Kariwa is \
         seawater once-through. There are no cooling towers, and none are needed.",
    ],
];

/// How good each match is.
pub const CONFIDENCES: [Confidence; 33] = [
    Confidence::Identified, // nuke_reactor_vessel_head
    Confidence::Identified, // nuke_spent_fuel_racks
    Confidence::Identified, // medium_silo
    Confidence::Identified, // nuke_silo_002
    Confidence::Mismatch, // nuke_silo_001b
    Confidence::Mismatch, // nuke_silo_001
    Confidence::Proxy, // nuke_machinery_05
    Confidence::Identified, // nuke_machinery_01
    Confidence::Proxy, // nuke_machinery_02
    Confidence::Identified, // nuke_machinery_03
    Confidence::Mismatch, // control_room_displays
    Confidence::Proxy, // nuke_supercomputer
    Confidence::Identified, // nuke_electric_panel01
    Confidence::Identified, // nuke_electric_panel02
    Confidence::Mismatch, // nuke_industrial_props_001
    Confidence::Identified, // power_outlet_campground
    Confidence::Identified, // nuke_office_desk_buttons
    Confidence::Identified, // nuke_office_desk_monitor
    Confidence::Mismatch, // gas_meter
    Confidence::Identified, // metal_pipe_002
    Confidence::Identified, // nuke_circuit_breaker
    Confidence::Identified, // current_transformer
    Confidence::Identified, // substation_transformer
    Confidence::Identified, // substation_support
    Confidence::Identified, // transformer_wires
    Confidence::Identified, // transformer_yard_powerbox
    Confidence::Identified, // nuke_power_pole
    Confidence::Proxy, // nuke_cargo_crane
    Confidence::Identified, // sprinkler_001
    Confidence::Mismatch, // airduct_hvac|nuke_roof_ac|hr_metal_duct|nuke_ventilation_exhaust
    Confidence::Proxy, // metal_pipe_00
    Confidence::Identified, // nuke_water
    Confidence::Identified, // hr_river_water
];

/// Label and address of every photograph, entry by entry.
///
/// Every address was resolved against the Wikimedia Commons API before being
/// written down. Category pages are preferred over single files where the point
/// is "this is what one of these looks like", because a category is a gallery of
/// many examples and survives any one file being renamed.
pub const REFERENCES: [[&'static str; 2]; 50] = [
    // nuke_reactor_vessel_head
    // Commons has no photograph of a BWR head off the vessel. The second link shows
    // PWR heads; the flange, stud ring and nozzle penetrations read the same, but
    // the label says so rather than let the picture imply otherwise.
    [
        "BWR reactor pressure vessel, cutaway",
        "https://commons.wikimedia.org/wiki/File:Bwr-rpv.svg",
    ],
    [
        "Reactor vessel heads in a laydown area (PWR, not BWR)",
        "https://commons.wikimedia.org/wiki/File:Reactor_Vessel_head.jpg",
    ],
    [
        "More reactor pressure vessels",
        "https://commons.wikimedia.org/wiki/Category:Reactor_pressure_vessel",
    ],
    // nuke_spent_fuel_racks
    [
        "Racked fuel in a BWR pool — Caorso",
        "https://commons.wikimedia.org/wiki/File:Caorso_fuel_pool.jpg",
    ],
    [
        "More spent fuel pools",
        "https://commons.wikimedia.org/wiki/Category:Spent_nuclear_fuel_ponds",
    ],
    // medium_silo
    [
        "Dry cask storage, NRC overview photo",
        "https://commons.wikimedia.org/wiki/File:Spent_Fuel_Dry_Cask_Storage_Overview_r3_(25533939854).jpg",
    ],
    [
        "ISFSI pads — casks on open hardstand",
        "https://commons.wikimedia.org/wiki/Category:Independent_Spent_Fuel_Storage_Installations",
    ],
    [
        "CASTOR casks",
        "https://commons.wikimedia.org/wiki/Category:Castor_containers",
    ],
    // nuke_silo_002
    // A CST at a real nuclear station, captioned as one by the survey that
    // photographed it: as direct a comparison as this table gets.
    [
        "Condensate storage tank at Shippingport, captioned (HAER survey)",
        "https://commons.wikimedia.org/wiki/File:VIEW_FROM_NORTHWEST_OF_CONDENSATE_STORAGE_TANK_(LEFT),_PRIMARY_WATER_STORAGE_TANK_(CENTER),_CANAL_WATER_STORAGE_TANK_(RIGHT)_(LOCATIONS_E,F,D)_-_Shippingport_Atomic_Power_Station,_HAER_PA,4-SHIP,1-8.tif",
    ],
    [
        "Bolted and welded storage tanks",
        "https://commons.wikimedia.org/wiki/Category:Storage_tanks",
    ],
    // nuke_silo_001b
    // The Mark I drywell is the one BWR containment that is genuinely bulbous. Even
    // this is buried in concrete and never seen from outside.
    [
        "What an ABWR actually looks like — Toshiba unit",
        "https://commons.wikimedia.org/wiki/File:ABWR_Toshiba_1.jpg",
    ],
    [
        "ABWR cross section — note the flat top slab, no dome",
        "https://commons.wikimedia.org/wiki/File:UK_ABWR_cross_section.png",
    ],
    [
        "Kashiwazaki-Kariwa, the largest ABWR site",
        "https://commons.wikimedia.org/wiki/File:Kashiwazaki-Kariwa_Nuclear_Power_Plant_14-Aug-2019.jpg",
    ],
    [
        "BWR Mark I drywell — the only bulb-shaped BWR containment",
        "https://commons.wikimedia.org/wiki/File:BWR_Mark_I_Containment,_diagram.png",
    ],
    [
        "Gas holders — what the shape actually reads as",
        "https://commons.wikimedia.org/wiki/Category:Gasometers",
    ],
    // nuke_silo_001
    [
        "What an ABWR actually looks like — Toshiba unit",
        "https://commons.wikimedia.org/wiki/File:ABWR_Toshiba_1.jpg",
    ],
    [
        "Gas holders — what the shape actually reads as",
        "https://commons.wikimedia.org/wiki/Category:Gasometers",
    ],
    // nuke_machinery_05
    // Commons' feedwater-heater category is almost entirely steam locomotives, so it
    // is deliberately not linked here.
    [
        "Shell-and-tube heat exchangers",
        "https://commons.wikimedia.org/wiki/Category:Heat_exchangers",
    ],
    // nuke_machinery_01
    [
        "Bulk storage tanks",
        "https://commons.wikimedia.org/wiki/Category:Storage_tanks",
    ],
    // nuke_machinery_02
    // No reference: an anonymous acoustic hood has no real counterpart to point at,
    // which is exactly why it is only a proxy.
    // nuke_machinery_03
    [
        "Industrial electric motors",
        "https://commons.wikimedia.org/wiki/Category:Electric_motors",
    ],
    // control_room_displays
    // Dresden is a BWR of exactly the generation the art depicts, which makes it the
    // closest real counterpart on Commons.
    [
        "Dresden BWR control room — the era the art is drawn from",
        "https://commons.wikimedia.org/wiki/File:Control_room_of_Commonwealth_Edison_Company%27s_Dresden_nuclear_power_station.jpg",
    ],
    [
        "An ABWR control room is digital — see the cross section",
        "https://commons.wikimedia.org/wiki/File:UK_ABWR_cross_section.png",
    ],
    [
        "More nuclear control rooms",
        "https://commons.wikimedia.org/wiki/Category:Nuclear_power_plant_control_rooms",
    ],
    // nuke_supercomputer
    [
        "Switchgear and control cubicles",
        "https://commons.wikimedia.org/wiki/Category:Switchgear",
    ],
    // nuke_electric_panel01
    [
        "Switchgear cubicles and MCC line-ups",
        "https://commons.wikimedia.org/wiki/Category:Switchgear",
    ],
    // nuke_electric_panel02
    [
        "Local control and switch panels",
        "https://commons.wikimedia.org/wiki/Category:Switchgear",
    ],
    // nuke_industrial_props_001
    // The vocabulary on the placard belongs to a two-circuit plant, not to a BWR.
    [
        "Distribution boards and relay cabinets",
        "https://commons.wikimedia.org/wiki/Category:Switchgear",
    ],
    [
        "A BWR has one circuit — compare the ABWR cross section",
        "https://commons.wikimedia.org/wiki/File:UK_ABWR_cross_section.png",
    ],
    // power_outlet_campground
    [
        "Field junction boxes",
        "https://commons.wikimedia.org/wiki/Category:Junction_boxes",
    ],
    [
        "Rigid conduit and cable clamps",
        "https://commons.wikimedia.org/wiki/Category:Electrical_conduit",
    ],
    [
        "Cable tray — how a real plant bulk-routes cable",
        "https://commons.wikimedia.org/wiki/Category:Cable_trays",
    ],
    // nuke_office_desk_buttons
    [
        "Operator consoles in real control rooms",
        "https://commons.wikimedia.org/wiki/Category:Nuclear_power_plant_control_rooms",
    ],
    // nuke_office_desk_monitor
    [
        "Dresden BWR control room, same vintage",
        "https://commons.wikimedia.org/wiki/File:Control_room_of_Commonwealth_Edison_Company%27s_Dresden_nuclear_power_station.jpg",
    ],
    // gas_meter
    [
        "Domestic gas meters — compare the register",
        "https://commons.wikimedia.org/wiki/Category:Gas_meters",
    ],
    // metal_pipe_002
    [
        "Bourdon pressure gauges",
        "https://commons.wikimedia.org/wiki/Category:Pressure_gauges",
    ],
    // nuke_circuit_breaker
    [
        "High-voltage circuit breakers",
        "https://commons.wikimedia.org/wiki/Category:Circuit_breakers",
    ],
    // current_transformer
    [
        "Current transformers",
        "https://commons.wikimedia.org/wiki/Category:Current_transformers",
    ],
    // substation_transformer
    [
        "High-voltage transformers with radiator banks",
        "https://commons.wikimedia.org/wiki/Category:High-voltage_transformers",
    ],
    // substation_support
    [
        "Lattice switchyard structures",
        "https://commons.wikimedia.org/wiki/Category:Transmission_towers",
    ],
    // transformer_wires
    [
        "Busbars and overhead jumpers",
        "https://commons.wikimedia.org/wiki/Category:Busbars",
    ],
    // transformer_yard_powerbox
    [
        "Marshalling kiosks and switchgear cabinets",
        "https://commons.wikimedia.org/wiki/Category:Switchgear",
    ],
    // nuke_power_pole
    [
        "Transmission structures",
        "https://commons.wikimedia.org/wiki/Category:Transmission_towers",
    ],
    // nuke_cargo_crane
    [
        "Rail-mounted gantry cranes",
        "https://commons.wikimedia.org/wiki/Category:Gantry_cranes",
    ],
    // sprinkler_001
    [
        "Fire sprinkler heads",
        "https://commons.wikimedia.org/wiki/Category:Fire_sprinklers",
    ],
    // airduct_hvac|nuke_roof_ac|hr_metal_duct|nuke_ventilation_exhaust
    [
        "Sheet-metal ductwork",
        "https://commons.wikimedia.org/wiki/Category:Ductwork",
    ],
    // metal_pipe_00
    [
        "Industrial process piping",
        "https://commons.wikimedia.org/wiki/Category:Piping",
    ],
    [
        "Where main steam lines really run — ABWR cross section",
        "https://commons.wikimedia.org/wiki/File:UK_ABWR_cross_section.png",
    ],
    // nuke_water
    [
        "Caorso BWR spent fuel pool",
        "https://commons.wikimedia.org/wiki/File:Caorso_fuel_pool.jpg",
    ],
    [
        "More spent fuel pools",
        "https://commons.wikimedia.org/wiki/Category:Spent_nuclear_fuel_ponds",
    ],
    // hr_river_water
    [
        "Kashiwazaki-Kariwa on the coast — once-through, no towers",
        "https://commons.wikimedia.org/wiki/File:Kashiwazaki-Kariwa_Nuclear_Power_Plant_14-Aug-2019.jpg",
    ],
];

/// Where the photographs of each entry end in [`REFERENCES`]; they start where
/// those of the entry before it end.
pub const LINKS_END: [usize; 33] = [
    3, // nuke_reactor_vessel_head
    5, // nuke_spent_fuel_racks
    8, // medium_silo
    10, // nuke_silo_002
    15, // nuke_silo_001b
    17, // nuke_silo_001
    18, // nuke_machinery_05
    19, // nuke_machinery_01
    19, // nuke_machinery_02
    20, // nuke_machinery_03
    23, // control_room_displays
    24, // nuke_supercomputer
    25, // nuke_electric_panel01
    26, // nuke_electric_panel02
    28, // nuke_industrial_props_001
    31, // power_outlet_campground
    32, // nuke_office_desk_buttons
    33, // nuke_office_desk_monitor
    34, // gas_meter
    35, // metal_pipe_002
    36, // nuke_circuit_breaker
    37, // current_transformer
    38, // substation_transformer
    39, // substation_support
    40, // transformer_wires
    41, // transformer_yard_powerbox
    42, // nuke_power_pole
    43, // nuke_cargo_crane
    44, // sprinkler_001
    45, // airduct_hvac|nuke_roof_ac|hr_metal_duct|nuke_ventilation_exhaust
    47, // metal_pipe_00
    49, // nuke_water
    50, // hr_river_water
];

} // verus!
